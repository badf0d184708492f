//! Lowerer: abstract syntax tree to construction-call tree.
//!
//! The output is a structured expression tree, not text: one construction
//! call per object carrying its attached components, with descendants in a
//! scoped child block. The defining structural rule is sibling flattening:
//! a nested plain element contributes a component to the *same* object, at
//! any depth; only the reserved grouping tag `children` (and the control
//! flow items `for`/`if`) produce true descendants.
//!
//! Two entry points mirror the two document modes: `generate_spawn_code`
//! lowers under a spawner capability and supports hierarchy and control
//! flow; `generate_bundle_code` lowers to a flat component tuple and
//! rejects any descendant generator.
//!
//! As with the parser, the lowering has a functional specification
//! (`lower_spawn`, `lower_bundle` and their helpers) and each executable
//! function is proved to return precisely what the specification says.

use vstd::prelude::*;

use crate::parse::{AttrV, BtmlAttr, BtmlChild, BtmlElse, BtmlIf, BtmlNode, ChildV, Content,
    ContentV, ElseV, IfV, NodeV, attr_dv, attrs_dv, args_dv, child_dv, children_dv, else_dv,
    flags_dv, if_dv, node_dv};
use crate::token::{Tok, str_eq};

verus! {

// ---------------------------------------------------------------------------
// Output expression tree
// ---------------------------------------------------------------------------

/// One component expression attached to a constructed object.
#[derive(Debug, PartialEq)]
pub enum Component {
    /// `Tag::constructor(args, ...)` — alternate construction function
    ConstructorCall { tag: String, constructor: String, args: Vec<Vec<Tok>> },
    /// `Tag(args, ...)` — positional/tuple construction
    Positional { tag: String, args: Vec<Vec<Tok>> },
    /// `Tag { key: value, ... }`, with `..Default::default()` appended when
    /// `fill_default` holds
    Fieldwise { tag: String, fields: Vec<BtmlAttr>, fill_default: bool },
    /// `Tag::default()`
    DefaultCall { tag: String },
    /// bare `Tag` — a unit value
    Unit { tag: String },
}

/// A construction call: `spawner.spawn((components, ...))`, followed by
/// `.with_children(|parent| { children })` when `children` is non-empty.
#[derive(Debug, PartialEq)]
pub struct SpawnExpr {
    pub spawner: String,
    pub components: Vec<Component>,
    pub children: Vec<SpawnStmt>,
}

/// One statement inside a `with_children` closure body.
#[derive(Debug, PartialEq)]
pub enum SpawnStmt {
    /// a grouped descendant subtree, spawned under the child builder
    Spawn(SpawnExpr),
    /// `for pat in iter { body; }` — the loop itself constructs no object
    For { pat: Vec<Tok>, iter: Vec<Tok>, body: SpawnExpr },
    /// an `if` / `else if` / `else` chain
    If(IfStmt),
}

/// A lowered conditional; absence of `else_branch` means the false case is
/// a no-op.
#[derive(Debug, PartialEq)]
pub struct IfStmt {
    pub condition: Vec<Tok>,
    pub then_branch: SpawnExpr,
    pub else_branch: Option<Box<ElseStmt>>,
}

/// The branch following `else`.
#[derive(Debug, PartialEq)]
pub enum ElseStmt {
    ElseIf(IfStmt),
    Block(SpawnExpr),
}

/// Model of `Component`.
pub ghost enum ComponentV {
    ConstructorCall { tag: Seq<char>, constructor: Seq<char>, args: Seq<Seq<Tok>> },
    Positional { tag: Seq<char>, args: Seq<Seq<Tok>> },
    Fieldwise { tag: Seq<char>, fields: Seq<AttrV>, fill_default: bool },
    DefaultCall { tag: Seq<char> },
    Unit { tag: Seq<char> },
}

/// Model of `SpawnExpr`.
pub ghost struct SpawnExprV {
    pub spawner: Seq<char>,
    pub components: Seq<ComponentV>,
    pub children: Seq<SpawnStmtV>,
}

/// Model of `SpawnStmt`.
pub ghost enum SpawnStmtV {
    Spawn(SpawnExprV),
    For { pat: Seq<Tok>, iter: Seq<Tok>, body: SpawnExprV },
    If(IfStmtV),
}

/// Model of `IfStmt`.
pub ghost struct IfStmtV {
    pub condition: Seq<Tok>,
    pub then_branch: SpawnExprV,
    pub else_branch: Option<Box<ElseStmtV>>,
}

/// Model of `ElseStmt`.
pub ghost enum ElseStmtV {
    ElseIf(IfStmtV),
    Block(SpawnExprV),
}

/// Model of one component.
pub open spec fn comp_dv(c: Component) -> ComponentV {
    match c {
        Component::ConstructorCall { tag, constructor, args } => ComponentV::ConstructorCall {
            tag: tag@,
            constructor: constructor@,
            args: args_dv(args@),
        },
        Component::Positional { tag, args } => ComponentV::Positional {
            tag: tag@,
            args: args_dv(args@),
        },
        Component::Fieldwise { tag, fields, fill_default } => ComponentV::Fieldwise {
            tag: tag@,
            fields: attrs_dv(fields@),
            fill_default,
        },
        Component::DefaultCall { tag } => ComponentV::DefaultCall { tag: tag@ },
        Component::Unit { tag } => ComponentV::Unit { tag: tag@ },
    }
}

/// Model of a component list.
pub open spec fn comps_dv(s: Seq<Component>) -> Seq<ComponentV> {
    s.map_values(|c: Component| comp_dv(c))
}

/// Model of one spawn expression.
pub open spec fn sexpr_dv(e: SpawnExpr) -> SpawnExprV
    decreases e,
{
    SpawnExprV {
        spawner: e.spawner@,
        components: comps_dv(e.components@),
        children: stmts_dv(e.children@),
    }
}

/// Model of a statement list.
pub open spec fn stmts_dv(s: Seq<SpawnStmt>) -> Seq<SpawnStmtV>
    decreases s,
{
    if s.len() == 0 {
        Seq::empty()
    } else {
        seq![stmt_dv(s[0])] + stmts_dv(s.drop_first())
    }
}

/// Model of one statement.
pub open spec fn stmt_dv(s: SpawnStmt) -> SpawnStmtV
    decreases s,
{
    match s {
        SpawnStmt::Spawn(e) => SpawnStmtV::Spawn(sexpr_dv(e)),
        SpawnStmt::For { pat, iter, body } => SpawnStmtV::For {
            pat: pat@,
            iter: iter@,
            body: sexpr_dv(body),
        },
        SpawnStmt::If(i) => SpawnStmtV::If(ifstmt_dv(i)),
    }
}

/// Model of a lowered conditional.
pub open spec fn ifstmt_dv(i: IfStmt) -> IfStmtV
    decreases i,
{
    IfStmtV {
        condition: i.condition@,
        then_branch: sexpr_dv(i.then_branch),
        else_branch: match i.else_branch {
            None => None,
            Some(b) => Some(Box::new(elsestmt_dv(*b))),
        },
    }
}

/// Model of an else branch.
pub open spec fn elsestmt_dv(e: ElseStmt) -> ElseStmtV
    decreases e,
{
    match e {
        ElseStmt::ElseIf(i) => ElseStmtV::ElseIf(ifstmt_dv(i)),
        ElseStmt::Block(b) => ElseStmtV::Block(sexpr_dv(b)),
    }
}

// ---------------------------------------------------------------------------
// Errors
// ---------------------------------------------------------------------------

/// A fatal lowering failure.
#[derive(Debug, PartialEq)]
pub enum LowerError {
    /// both `default` and `no_default` flags on one node
    ConflictingFlags { tag: String },
    /// a descendant generator (grouping tag, `for` or `if`) in pure
    /// composition (no-spawner) mode, which cannot express hierarchy
    ControlFlowInBundle,
}

/// Model of `LowerError`.
pub ghost enum LowerErrV {
    ConflictingFlags { tag: Seq<char> },
    ControlFlowInBundle,
}

impl View for LowerError {
    type V = LowerErrV;

    open spec fn view(&self) -> LowerErrV {
        match *self {
            LowerError::ConflictingFlags { tag } => LowerErrV::ConflictingFlags { tag: tag@ },
            LowerError::ControlFlowInBundle => LowerErrV::ControlFlowInBundle,
        }
    }
}

// ---------------------------------------------------------------------------
// The specification lowerer
// ---------------------------------------------------------------------------

/// The reserved grouping tag: its node never becomes a component; its child
/// list is spliced in as a true descendant subtree.
pub open spec fn marker_tag() -> Seq<char> {
    "children"@
}

/// The builder name that a `with_children` closure binds for its scope.
pub open spec fn child_spawner() -> Seq<char> {
    "parent"@
}

/// Whether the word `w` occurs in the flag list `fs`.
pub open spec fn seq_has_word(fs: Seq<Seq<char>>, w: Seq<char>) -> bool {
    exists|i: int| 0 <= i < fs.len() && fs[i] == w
}

/// Whether `n` carries the flag `w`.
pub open spec fn has_flag(n: NodeV, w: Seq<char>) -> bool {
    seq_has_word(n.flags, w)
}

/// Whether `n` is the reserved grouping marker.
pub open spec fn is_marker(n: NodeV) -> bool {
    n.tag == marker_tag()
}

/// Whether `n` carries the mutually exclusive `default` and `no_default`
/// flags at once — a fatal construction error.
pub open spec fn flags_conflict(n: NodeV) -> bool {
    has_flag(n, "default"@) && has_flag(n, "no_default"@)
}

/// The component expression a single (conflict-free, non-marker) node
/// lowers to.
pub open spec fn component_of(n: NodeV) -> ComponentV {
    match n.constructor {
        Some(c) => ComponentV::ConstructorCall {
            tag: n.tag,
            constructor: c,
            args: match n.content {
                Some(ContentV::Arguments(a)) => a,
                None => Seq::empty(),
            },
        },
        None => match n.content {
            Some(ContentV::Arguments(a)) => ComponentV::Positional { tag: n.tag, args: a },
            None => {
                if n.attributes.len() > 0 {
                    ComponentV::Fieldwise {
                        tag: n.tag,
                        fields: n.attributes,
                        fill_default: !has_flag(n, "no_default"@),
                    }
                } else if has_flag(n, "default"@) {
                    ComponentV::DefaultCall { tag: n.tag }
                } else {
                    ComponentV::Unit { tag: n.tag }
                }
            },
        },
    }
}

/// Pure composition mode: lowers `items` to a flat component tuple. Any
/// descendant generator — a grouping marker, a `for`, an `if` — is a hard
/// error, as are conflicting flags.
pub open spec fn lower_bundle(items: Seq<ChildV>) -> Result<Seq<ComponentV>, LowerErrV>
    decreases items,
{
    if items.len() == 0 {
        Ok(Seq::empty())
    } else {
        match lower_bundle_item(items[0]) {
            Err(e) => Err(e),
            Ok(cs) => match lower_bundle(items.drop_first()) {
                Err(e) => Err(e),
                Ok(rest) => Ok(cs + rest),
            },
        }
    }
}

/// Pure composition mode, one item: a plain node contributes its own
/// component followed by its children's, transitively flattened.
pub open spec fn lower_bundle_item(item: ChildV) -> Result<Seq<ComponentV>, LowerErrV>
    decreases item,
{
    match item {
        ChildV::Node(n) => {
            if is_marker(n) {
                Err(LowerErrV::ControlFlowInBundle)
            } else if flags_conflict(n) {
                Err(LowerErrV::ConflictingFlags { tag: n.tag })
            } else {
                match lower_bundle(n.children) {
                    Err(e) => Err(e),
                    Ok(cs) => Ok(seq![component_of(n)] + cs),
                }
            }
        },
        _ => Err(LowerErrV::ControlFlowInBundle),
    }
}

/// Attached-component collection (spawner mode, first phase): the
/// components of every plain node in `items`, transitively flattened in
/// source order. Markers, loops and conditionals contribute nothing here.
pub open spec fn flat_comps(items: Seq<ChildV>) -> Result<Seq<ComponentV>, LowerErrV>
    decreases items,
{
    if items.len() == 0 {
        Ok(Seq::empty())
    } else {
        match flat_comps_item(items[0]) {
            Err(e) => Err(e),
            Ok(cs) => match flat_comps(items.drop_first()) {
                Err(e) => Err(e),
                Ok(rest) => Ok(cs + rest),
            },
        }
    }
}

/// Attached-component collection, one item.
pub open spec fn flat_comps_item(item: ChildV) -> Result<Seq<ComponentV>, LowerErrV>
    decreases item,
{
    match item {
        ChildV::Node(n) => {
            if is_marker(n) {
                Ok(Seq::empty())
            } else if flags_conflict(n) {
                Err(LowerErrV::ConflictingFlags { tag: n.tag })
            } else {
                match flat_comps(n.children) {
                    Err(e) => Err(e),
                    Ok(cs) => Ok(seq![component_of(n)] + cs),
                }
            }
        },
        _ => Ok(Seq::empty()),
    }
}

/// Spawner mode: lowers `items` to one construction call on `spawner`
/// carrying the flattened attached components, with the descendant
/// generators lowered into its child scope.
pub open spec fn lower_spawn(spawner: Seq<char>, items: Seq<ChildV>) -> Result<
    SpawnExprV,
    LowerErrV,
>
    decreases items, 1int,
{
    match flat_comps(items) {
        Err(e) => Err(e),
        Ok(cs) => match lower_stmts(items) {
            Err(e) => Err(e),
            Ok(ss) => Ok(SpawnExprV { spawner, components: cs, children: ss }),
        },
    }
}

/// Descendant-generator lowering (spawner mode, second phase): the child
/// statements produced by `items`, in source order, with generators nested
/// inside plain nodes hoisted to the same scope.
pub open spec fn lower_stmts(items: Seq<ChildV>) -> Result<Seq<SpawnStmtV>, LowerErrV>
    decreases items, 0int,
{
    if items.len() == 0 {
        Ok(Seq::empty())
    } else {
        match lower_stmt_item(items[0]) {
            Err(e) => Err(e),
            Ok(ss) => match lower_stmts(items.drop_first()) {
                Err(e) => Err(e),
                Ok(rest) => Ok(ss + rest),
            },
        }
    }
}

/// Descendant-generator lowering, one item.
pub open spec fn lower_stmt_item(item: ChildV) -> Result<Seq<SpawnStmtV>, LowerErrV>
    decreases item, 2int,
{
    match item {
        ChildV::Node(n) => {
            if is_marker(n) {
                match lower_spawn(child_spawner(), n.children) {
                    Err(e) => Err(e),
                    Ok(e2) => Ok(seq![SpawnStmtV::Spawn(e2)]),
                }
            } else {
                lower_stmts(n.children)
            }
        },
        ChildV::For(f) => match lower_spawn(child_spawner(), f.body) {
            Err(e) => Err(e),
            Ok(b) => Ok(seq![SpawnStmtV::For { pat: f.pat, iter: f.expr, body: b }]),
        },
        ChildV::If(i) => match lower_if_chain(i) {
            Err(e) => Err(e),
            Ok(st) => Ok(seq![SpawnStmtV::If(st)]),
        },
    }
}

/// Lowers one `if` chain: each branch is a full spawn expression under the
/// child builder; the chain structure is preserved exactly.
pub open spec fn lower_if_chain(i: IfV) -> Result<IfStmtV, LowerErrV>
    decreases i, 0int,
{
    match lower_spawn(child_spawner(), i.then_branch) {
        Err(e) => Err(e),
        Ok(t) => match i.else_branch {
            None => Ok(IfStmtV { condition: i.condition, then_branch: t, else_branch: None }),
            Some(b) => match lower_else(*b) {
                Err(e) => Err(e),
                Ok(es) => Ok(
                    IfStmtV {
                        condition: i.condition,
                        then_branch: t,
                        else_branch: Some(Box::new(es)),
                    },
                ),
            },
        },
    }
}

/// Lowers the branch following an `else`.
pub open spec fn lower_else(e: ElseV) -> Result<ElseStmtV, LowerErrV>
    decreases e, 0int,
{
    match e {
        ElseV::If(i) => match lower_if_chain(i) {
            Err(er) => Err(er),
            Ok(st) => Ok(ElseStmtV::ElseIf(st)),
        },
        ElseV::Block(items) => match lower_spawn(child_spawner(), items) {
            Err(er) => Err(er),
            Ok(se) => Ok(ElseStmtV::Block(se)),
        },
    }
}

} // verus!

verus! {

// ---------------------------------------------------------------------------
// The executable lowerer
// ---------------------------------------------------------------------------

use crate::parse::lemma_children_dv_props;

/// The model of a statement list distributes over concatenation.
pub proof fn lemma_stmts_dv_add(a: Seq<SpawnStmt>, b: Seq<SpawnStmt>)
    ensures
        stmts_dv(a + b) == stmts_dv(a) + stmts_dv(b),
    decreases a,
{
    if a.len() == 0 {
        assert(a + b =~= b);
        assert(stmts_dv(a) + stmts_dv(b) =~= stmts_dv(b));
    } else {
        lemma_stmts_dv_add(a.drop_first(), b);
        assert((a + b).drop_first() =~= a.drop_first() + b);
        assert((a + b)[0] == a[0]);
        assert(seq![stmt_dv(a[0])] + (stmts_dv(a.drop_first()) + stmts_dv(b)) =~= (seq![
            stmt_dv(a[0]),
        ] + stmts_dv(a.drop_first())) + stmts_dv(b));
    }
}

/// Clones a token span.
fn clone_toks(v: &Vec<Tok>) -> (r: Vec<Tok>)
    ensures
        r@ == v@,
{
    let mut r: Vec<Tok> = Vec::new();
    let mut i: usize = 0;
    while i < v.len()
        invariant
            i <= v@.len(),
            r@ == v@.subrange(0, i as int),
        decreases v@.len() - i,
    {
        r.push(v[i].clone());
        i = i + 1;
        assert(r@ =~= v@.subrange(0, i as int));
    }
    assert(r@ =~= v@);
    r
}

/// Clones an argument list, keeping its model.
fn clone_args(v: &Vec<Vec<Tok>>) -> (r: Vec<Vec<Tok>>)
    ensures
        args_dv(r@) == args_dv(v@),
{
    let mut r: Vec<Vec<Tok>> = Vec::new();
    let mut i: usize = 0;
    while i < v.len()
        invariant
            i <= v@.len(),
            r@.len() == i,
            forall|j: int| 0 <= j < i ==> r@[j]@ == v@[j]@,
        decreases v@.len() - i,
    {
        r.push(clone_toks(&v[i]));
        i = i + 1;
    }
    assert(args_dv(r@) =~= args_dv(v@));
    r
}

/// Clones an attribute list, keeping its model.
fn clone_attrs(v: &Vec<BtmlAttr>) -> (r: Vec<BtmlAttr>)
    ensures
        attrs_dv(r@) == attrs_dv(v@),
{
    let mut r: Vec<BtmlAttr> = Vec::new();
    let mut i: usize = 0;
    while i < v.len()
        invariant
            i <= v@.len(),
            r@.len() == i,
            forall|j: int| 0 <= j < i ==> attr_dv(r@[j]) == attr_dv(v@[j]),
        decreases v@.len() - i,
    {
        let a = &v[i];
        r.push(BtmlAttr { key: a.key.clone(), value: clone_toks(&a.value) });
        i = i + 1;
    }
    assert(attrs_dv(r@) =~= attrs_dv(v@));
    r
}

/// Whether the word `w` occurs in the flag list, executably.
fn flags_contain(flags: &Vec<String>, w: &str) -> (r: bool)
    ensures
        r == seq_has_word(flags_dv(flags@), w@),
{
    let mut i: usize = 0;
    while i < flags.len()
        invariant
            i <= flags@.len(),
            forall|j: int| 0 <= j < i ==> flags_dv(flags@)[j] != w@,
        decreases flags@.len() - i,
    {
        if str_eq(&flags[i], w) {
            assert(flags_dv(flags@)[i as int] == w@);
            return true;
        }
        assert(flags_dv(flags@)[i as int] != w@);
        i = i + 1;
    }
    false
}

/// Lowers one node to its component expression. Fails exactly when the node
/// carries both `default` and `no_default`.
fn node_to_component(node: &BtmlNode) -> (r: Result<Component, LowerError>)
    ensures
        match r {
            Ok(c) => !flags_conflict(node_dv(*node)) && comp_dv(c) == component_of(node_dv(*node)),
            Err(e) => flags_conflict(node_dv(*node)) && e@ == (LowerErrV::ConflictingFlags {
                tag: node.tag@,
            }),
        },
{
    let has_default = flags_contain(&node.flags, "default");
    let has_no_default = flags_contain(&node.flags, "no_default");
    if has_default && has_no_default {
        return Err(LowerError::ConflictingFlags { tag: node.tag.clone() });
    }
    if let Some(ctor) = &node.constructor {
        let args: Vec<Vec<Tok>> = match &node.content {
            Some(Content::Arguments(a)) => clone_args(a),
            None => Vec::new(),
        };
        proof {
            if node.content is None {
                assert(args_dv(args@) =~= Seq::<Seq<Tok>>::empty());
            }
        }
        Ok(
            Component::ConstructorCall {
                tag: node.tag.clone(),
                constructor: ctor.clone(),
                args,
            },
        )
    } else if let Some(Content::Arguments(a)) = &node.content {
        Ok(Component::Positional { tag: node.tag.clone(), args: clone_args(a) })
    } else if node.attributes.len() > 0 {
        Ok(
            Component::Fieldwise {
                tag: node.tag.clone(),
                fields: clone_attrs(&node.attributes),
                fill_default: !has_no_default,
            },
        )
    } else if has_default {
        Ok(Component::DefaultCall { tag: node.tag.clone() })
    } else {
        Ok(Component::Unit { tag: node.tag.clone() })
    }
}

/// Pure composition mode: lowers the items to a flat component tuple,
/// rejecting any descendant generator. Returns exactly what `lower_bundle`
/// says on the items' model.
pub fn generate_bundle_code(nodes: &Vec<BtmlChild>) -> (r: Result<Vec<Component>, LowerError>)
    ensures
        match r {
            Ok(cs) => lower_bundle(children_dv(nodes@)) matches Ok(csv) && csv == comps_dv(cs@),
            Err(e) => lower_bundle(children_dv(nodes@)) matches Err(ev) && ev == e@,
        },
    decreases nodes@, nodes@.len() + 1,
{
    proof {
        assert(children_dv(nodes@).skip(0) =~= children_dv(nodes@));
    }
    bundle_from(nodes, 0)
}

/// Pure composition mode from item `i` on.
fn bundle_from(nodes: &Vec<BtmlChild>, i: usize) -> (r: Result<Vec<Component>, LowerError>)
    requires
        i <= nodes@.len(),
    ensures
        match r {
            Ok(cs) => lower_bundle(children_dv(nodes@).skip(i as int)) matches Ok(csv) && csv
                == comps_dv(cs@),
            Err(e) => lower_bundle(children_dv(nodes@).skip(i as int)) matches Err(ev) && ev
                == e@,
        },
    decreases nodes@, nodes@.len() - i,
{
    proof {
        lemma_children_dv_props(nodes@);
    }
    let ghost suffix = children_dv(nodes@).skip(i as int);
    if i >= nodes.len() {
        let cs: Vec<Component> = Vec::new();
        assert(suffix =~= Seq::<ChildV>::empty());
        assert(comps_dv(cs@) =~= Seq::<ComponentV>::empty());
        return Ok(cs);
    }
    assert(suffix[0] == child_dv(nodes@[i as int]));
    assert(suffix.drop_first() =~= children_dv(nodes@).skip(i + 1));
    match collect_components_recursive(&nodes[i]) {
        Err(e) => Err(e),
        Ok(mut cs) => {
            match bundle_from(nodes, i + 1) {
                Err(e) => Err(e),
                Ok(mut rest) => {
                    let ghost cs0 = cs@;
                    let ghost rest0 = rest@;
                    cs.append(&mut rest);
                    assert(comps_dv(cs@) =~= comps_dv(cs0) + comps_dv(rest0));
                    Ok(cs)
                },
            }
        },
    }
}

/// Pure composition mode, one item: the item's own component followed by
/// its children's, transitively flattened; a generator is a hard error.
fn collect_components_recursive(item: &BtmlChild) -> (r: Result<Vec<Component>, LowerError>)
    ensures
        match r {
            Ok(cs) => lower_bundle_item(child_dv(*item)) matches Ok(csv) && csv == comps_dv(cs@),
            Err(e) => lower_bundle_item(child_dv(*item)) matches Err(ev) && ev == e@,
        },
    decreases *item, 0int,
{
    match item {
        BtmlChild::Node(n) => {
            if str_eq(&n.tag, "children") {
                return Err(LowerError::ControlFlowInBundle);
            }
            match node_to_component(n) {
                Err(e) => Err(e),
                Ok(c) => {
                    match generate_bundle_code(&n.children) {
                        Err(e) => Err(e),
                        Ok(mut cs) => {
                            let ghost cs0 = cs@;
                            cs.insert(0, c);
                            assert(comps_dv(cs@) =~= seq![component_of(node_dv(*n))] + comps_dv(
                                cs0,
                            ));
                            Ok(cs)
                        },
                    }
                },
            }
        },
        _ => Err(LowerError::ControlFlowInBundle),
    }
}

} // verus!

verus! {

/// Attached-component collection from item `i` on (spawner mode, first
/// phase).
fn comps_from(nodes: &Vec<BtmlChild>, i: usize) -> (r: Result<Vec<Component>, LowerError>)
    requires
        i <= nodes@.len(),
    ensures
        match r {
            Ok(cs) => flat_comps(children_dv(nodes@).skip(i as int)) matches Ok(csv) && csv
                == comps_dv(cs@),
            Err(e) => flat_comps(children_dv(nodes@).skip(i as int)) matches Err(ev) && ev == e@,
        },
    decreases nodes@, nodes@.len() - i,
{
    proof {
        lemma_children_dv_props(nodes@);
    }
    let ghost suffix = children_dv(nodes@).skip(i as int);
    if i >= nodes.len() {
        let cs: Vec<Component> = Vec::new();
        assert(suffix =~= Seq::<ChildV>::empty());
        assert(comps_dv(cs@) =~= Seq::<ComponentV>::empty());
        return Ok(cs);
    }
    assert(suffix[0] == child_dv(nodes@[i as int]));
    assert(suffix.drop_first() =~= children_dv(nodes@).skip(i + 1));
    match collect_components_item(&nodes[i]) {
        Err(e) => Err(e),
        Ok(mut cs) => {
            match comps_from(nodes, i + 1) {
                Err(e) => Err(e),
                Ok(mut rest) => {
                    let ghost cs0 = cs@;
                    let ghost rest0 = rest@;
                    cs.append(&mut rest);
                    assert(comps_dv(cs@) =~= comps_dv(cs0) + comps_dv(rest0));
                    Ok(cs)
                },
            }
        },
    }
}

/// Attached-component collection, one item: a plain node contributes its
/// own component and, transitively, its children's; markers, loops and
/// conditionals contribute none.
fn collect_components_item(item: &BtmlChild) -> (r: Result<Vec<Component>, LowerError>)
    ensures
        match r {
            Ok(cs) => flat_comps_item(child_dv(*item)) matches Ok(csv) && csv == comps_dv(cs@),
            Err(e) => flat_comps_item(child_dv(*item)) matches Err(ev) && ev == e@,
        },
    decreases *item, 0int,
{
    match item {
        BtmlChild::Node(n) => {
            if str_eq(&n.tag, "children") {
                let cs: Vec<Component> = Vec::new();
                assert(comps_dv(cs@) =~= Seq::<ComponentV>::empty());
                return Ok(cs);
            }
            match node_to_component(n) {
                Err(e) => Err(e),
                Ok(c) => {
                    proof {
                        assert(children_dv(n.children@).skip(0) =~= children_dv(n.children@));
                    }
                    match comps_from(&n.children, 0) {
                        Err(e) => Err(e),
                        Ok(mut cs) => {
                            let ghost cs0 = cs@;
                            cs.insert(0, c);
                            assert(comps_dv(cs@) =~= seq![component_of(node_dv(*n))] + comps_dv(
                                cs0,
                            ));
                            Ok(cs)
                        },
                    }
                },
            }
        },
        _ => {
            let cs: Vec<Component> = Vec::new();
            assert(comps_dv(cs@) =~= Seq::<ComponentV>::empty());
            Ok(cs)
        },
    }
}

/// Descendant-generator lowering from item `i` on (spawner mode, second
/// phase).
fn stmts_from(nodes: &Vec<BtmlChild>, i: usize) -> (r: Result<Vec<SpawnStmt>, LowerError>)
    requires
        i <= nodes@.len(),
    ensures
        match r {
            Ok(ss) => lower_stmts(children_dv(nodes@).skip(i as int)) matches Ok(sv) && sv
                == stmts_dv(ss@),
            Err(e) => lower_stmts(children_dv(nodes@).skip(i as int)) matches Err(ev) && ev
                == e@,
        },
    decreases nodes@, nodes@.len() - i,
{
    proof {
        lemma_children_dv_props(nodes@);
    }
    let ghost suffix = children_dv(nodes@).skip(i as int);
    if i >= nodes.len() {
        let ss: Vec<SpawnStmt> = Vec::new();
        assert(suffix =~= Seq::<ChildV>::empty());
        assert(stmts_dv(ss@) =~= Seq::<SpawnStmtV>::empty());
        return Ok(ss);
    }
    assert(suffix[0] == child_dv(nodes@[i as int]));
    assert(suffix.drop_first() =~= children_dv(nodes@).skip(i + 1));
    match collect_child_stmt_item(&nodes[i]) {
        Err(e) => Err(e),
        Ok(mut ss) => {
            match stmts_from(nodes, i + 1) {
                Err(e) => Err(e),
                Ok(mut rest) => {
                    let ghost ss0 = ss@;
                    let ghost rest0 = rest@;
                    ss.append(&mut rest);
                    proof {
                        lemma_stmts_dv_add(ss0, rest0);
                    }
                    Ok(ss)
                },
            }
        },
    }
}

/// Descendant-generator lowering, one item: a grouping marker spawns its
/// child list as a true subtree; generators nested in a plain node are
/// hoisted; loops and conditionals become the matching statements.
fn collect_child_stmt_item(item: &BtmlChild) -> (r: Result<Vec<SpawnStmt>, LowerError>)
    ensures
        match r {
            Ok(ss) => lower_stmt_item(child_dv(*item)) matches Ok(sv) && sv == stmts_dv(ss@),
            Err(e) => lower_stmt_item(child_dv(*item)) matches Err(ev) && ev == e@,
        },
    decreases *item, 0int,
{
    match item {
        BtmlChild::Node(n) => {
            if str_eq(&n.tag, "children") {
                match generate_spawn_code("parent", &n.children) {
                    Err(e) => Err(e),
                    Ok(e2) => {
                        let mut ss: Vec<SpawnStmt> = Vec::new();
                        ss.push(SpawnStmt::Spawn(e2));
                        assert(ss@.drop_first() =~= Seq::<SpawnStmt>::empty());
                        proof {
                        reveal_with_fuel(stmts_dv, 2);
                    }
                    assert(stmts_dv(ss@) =~= seq![stmt_dv(ss@[0])]);
                        Ok(ss)
                    },
                }
            } else {
                proof {
                    assert(children_dv(n.children@).skip(0) =~= children_dv(n.children@));
                }
                stmts_from(&n.children, 0)
            }
        },
        BtmlChild::For(f) => {
            match generate_spawn_code("parent", &f.body) {
                Err(e) => Err(e),
                Ok(b) => {
                    let mut ss: Vec<SpawnStmt> = Vec::new();
                    ss.push(
                        SpawnStmt::For {
                            pat: clone_toks(&f.pat),
                            iter: clone_toks(&f.expr),
                            body: b,
                        },
                    );
                    assert(ss@.drop_first() =~= Seq::<SpawnStmt>::empty());
                    proof {
                        reveal_with_fuel(stmts_dv, 2);
                    }
                    assert(stmts_dv(ss@) =~= seq![stmt_dv(ss@[0])]);
                    Ok(ss)
                },
            }
        },
        BtmlChild::If(i) => {
            match generate_if_code(i) {
                Err(e) => Err(e),
                Ok(st) => {
                    let mut ss: Vec<SpawnStmt> = Vec::new();
                    ss.push(SpawnStmt::If(st));
                    assert(ss@.drop_first() =~= Seq::<SpawnStmt>::empty());
                    proof {
                        reveal_with_fuel(stmts_dv, 2);
                    }
                    assert(stmts_dv(ss@) =~= seq![stmt_dv(ss@[0])]);
                    Ok(ss)
                },
            }
        },
    }
}

/// Lowers one `if` chain into a conditional statement whose branches spawn
/// under the child builder.
fn generate_if_code(if_node: &BtmlIf) -> (r: Result<IfStmt, LowerError>)
    ensures
        match r {
            Ok(st) => lower_if_chain(if_dv(*if_node)) matches Ok(sv) && sv == ifstmt_dv(st),
            Err(e) => lower_if_chain(if_dv(*if_node)) matches Err(ev) && ev == e@,
        },
    decreases *if_node, 0int,
{
    let then_e = match generate_spawn_code("parent", &if_node.then_branch) {
        Err(e) => {
            return Err(e);
        },
        Ok(t) => t,
    };
    match &if_node.else_branch {
        None => Ok(
            IfStmt {
                condition: clone_toks(&if_node.condition),
                then_branch: then_e,
                else_branch: None,
            },
        ),
        Some(b) => match generate_else_code(b) {
            Err(e) => Err(e),
            Ok(es) => Ok(
                IfStmt {
                    condition: clone_toks(&if_node.condition),
                    then_branch: then_e,
                    else_branch: Some(Box::new(es)),
                },
            ),
        },
    }
}

/// Lowers the branch following an `else`.
fn generate_else_code(els: &BtmlElse) -> (r: Result<ElseStmt, LowerError>)
    ensures
        match r {
            Ok(es) => lower_else(else_dv(*els)) matches Ok(ev) && ev == elsestmt_dv(es),
            Err(e) => lower_else(else_dv(*els)) matches Err(ev) && ev == e@,
        },
    decreases *els, 0int,
{
    match els {
        BtmlElse::If(i) => match generate_if_code(i) {
            Err(e) => Err(e),
            Ok(st) => Ok(ElseStmt::ElseIf(st)),
        },
        BtmlElse::Block(b) => match generate_spawn_code("parent", b) {
            Err(e) => Err(e),
            Ok(se) => Ok(ElseStmt::Block(se)),
        },
    }
}

/// Spawner mode: lowers the items to a single construction call on
/// `spawner` carrying the flattened attached components, with every
/// descendant generator lowered into its child scope. Returns exactly what
/// `lower_spawn` says on the items' model.
pub fn generate_spawn_code(spawner: &str, nodes: &Vec<BtmlChild>) -> (r: Result<
    SpawnExpr,
    LowerError,
>)
    ensures
        match r {
            Ok(e) => lower_spawn(spawner@, children_dv(nodes@)) matches Ok(ev) && ev == sexpr_dv(
                e,
            ),
            Err(er) => lower_spawn(spawner@, children_dv(nodes@)) matches Err(ev) && ev == er@,
        },
    decreases nodes@, nodes@.len() + 2,
{
    proof {
        assert(children_dv(nodes@).skip(0) =~= children_dv(nodes@));
    }
    let comps = match comps_from(nodes, 0) {
        Err(e) => {
            return Err(e);
        },
        Ok(c) => c,
    };
    let stmts = match stmts_from(nodes, 0) {
        Err(e) => {
            return Err(e);
        },
        Ok(s) => s,
    };
    Ok(SpawnExpr { spawner: spawner.to_owned(), components: comps, children: stmts })
}

} // verus!
