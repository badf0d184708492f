//! The structural laws of the lowering, stated and proved against the
//! specification functions: when each mode succeeds, sibling flattening,
//! the grouping marker, flag exclusivity, the defaulting toggle, loop and
//! conditional lowering, and the parser's closing-tag discipline.

use vstd::prelude::*;

use crate::codegen::{ComponentV, ElseStmtV, IfStmtV, LowerErrV, SpawnExprV, SpawnStmtV,
    child_spawner, component_of, flags_conflict, flat_comps, flat_comps_item, has_flag, is_marker,
    lower_bundle, lower_bundle_item, lower_else, lower_if_chain, lower_spawn, lower_stmt_item,
    lower_stmts};
use crate::parse::{ChildV, ElseV, ForV, IfV, NodeV, PStep, p_node};
use crate::token::Tok;

verus! {

// ---------------------------------------------------------------------------
// When lowering succeeds
// ---------------------------------------------------------------------------

/// No non-marker node reachable from `items` carries both `default` and
/// `no_default`.
pub open spec fn conflict_free(items: Seq<ChildV>) -> bool
    decreases items,
{
    if items.len() == 0 {
        true
    } else {
        conflict_free_item(items[0]) && conflict_free(items.drop_first())
    }
}

/// Conflict freedom of one item.
pub open spec fn conflict_free_item(item: ChildV) -> bool
    decreases item,
{
    match item {
        ChildV::Node(n) => (is_marker(n) || !flags_conflict(n)) && conflict_free(n.children),
        ChildV::For(f) => conflict_free(f.body),
        ChildV::If(i) => conflict_free_if(i),
    }
}

/// Conflict freedom of an if chain.
pub open spec fn conflict_free_if(i: IfV) -> bool
    decreases i,
{
    conflict_free(i.then_branch) && (match i.else_branch {
        None => true,
        Some(b) => conflict_free_else(*b),
    })
}

/// Conflict freedom of an else branch.
pub open spec fn conflict_free_else(e: ElseV) -> bool
    decreases e,
{
    match e {
        ElseV::If(i) => conflict_free_if(i),
        ElseV::Block(b) => conflict_free(b),
    }
}

proof fn lemma_cf_flat(items: Seq<ChildV>)
    requires
        conflict_free(items),
    ensures
        flat_comps(items) is Ok,
    decreases items, 1int,
{
    if items.len() > 0 {
        lemma_cf_flat_item(items[0]);
        lemma_cf_flat(items.drop_first());
    }
}

proof fn lemma_cf_flat_item(item: ChildV)
    requires
        conflict_free_item(item),
    ensures
        flat_comps_item(item) is Ok,
    decreases item, 2int,
{
    match item {
        ChildV::Node(n) => {
            if !is_marker(n) {
                lemma_cf_flat(n.children);
            }
        },
        _ => {},
    }
}

proof fn lemma_cf_stmts(items: Seq<ChildV>)
    requires
        conflict_free(items),
    ensures
        lower_stmts(items) is Ok,
    decreases items, 2int,
{
    if items.len() > 0 {
        lemma_cf_stmt_item(items[0]);
        lemma_cf_stmts(items.drop_first());
    }
}

proof fn lemma_cf_stmt_item(item: ChildV)
    requires
        conflict_free_item(item),
    ensures
        lower_stmt_item(item) is Ok,
    decreases item, 4int,
{
    match item {
        ChildV::Node(n) => {
            if is_marker(n) {
                lemma_cf_spawn(child_spawner(), n.children);
            } else {
                lemma_cf_stmts(n.children);
            }
        },
        ChildV::For(f) => lemma_cf_spawn(child_spawner(), f.body),
        ChildV::If(i) => lemma_cf_if(i),
    }
}

proof fn lemma_cf_if(i: IfV)
    requires
        conflict_free_if(i),
    ensures
        lower_if_chain(i) is Ok,
    decreases i, 0int,
{
    lemma_cf_spawn(child_spawner(), i.then_branch);
    match i.else_branch {
        None => {},
        Some(b) => lemma_cf_else(*b),
    }
}

proof fn lemma_cf_else(e: ElseV)
    requires
        conflict_free_else(e),
    ensures
        lower_else(e) is Ok,
    decreases e, 0int,
{
    match e {
        ElseV::If(i) => lemma_cf_if(i),
        ElseV::Block(b) => lemma_cf_spawn(child_spawner(), b),
    }
}

proof fn lemma_cf_spawn(s: Seq<char>, items: Seq<ChildV>)
    requires
        conflict_free(items),
    ensures
        lower_spawn(s, items) is Ok,
    decreases items, 3int,
{
    lemma_cf_flat(items);
    lemma_cf_stmts(items);
}

proof fn lemma_ok_cf_items(items: Seq<ChildV>)
    requires
        flat_comps(items) is Ok,
        lower_stmts(items) is Ok,
    ensures
        conflict_free(items),
    decreases items, 2int,
{
    if items.len() > 0 {
        lemma_ok_cf_item(items[0]);
        lemma_ok_cf_items(items.drop_first());
    }
}

proof fn lemma_ok_cf_item(item: ChildV)
    requires
        flat_comps_item(item) is Ok,
        lower_stmt_item(item) is Ok,
    ensures
        conflict_free_item(item),
    decreases item, 4int,
{
    match item {
        ChildV::Node(n) => {
            if is_marker(n) {
                lemma_spawn_cf(child_spawner(), n.children);
            } else {
                lemma_ok_cf_items(n.children);
            }
        },
        ChildV::For(f) => lemma_spawn_cf(child_spawner(), f.body),
        ChildV::If(i) => lemma_ok_cf_if(i),
    }
}

proof fn lemma_ok_cf_if(i: IfV)
    requires
        lower_if_chain(i) is Ok,
    ensures
        conflict_free_if(i),
    decreases i, 0int,
{
    lemma_spawn_cf(child_spawner(), i.then_branch);
    match i.else_branch {
        None => {},
        Some(b) => lemma_ok_cf_else(*b),
    }
}

proof fn lemma_ok_cf_else(e: ElseV)
    requires
        lower_else(e) is Ok,
    ensures
        conflict_free_else(e),
    decreases e, 0int,
{
    match e {
        ElseV::If(i) => lemma_ok_cf_if(i),
        ElseV::Block(b) => lemma_spawn_cf(child_spawner(), b),
    }
}

proof fn lemma_spawn_cf(s: Seq<char>, items: Seq<ChildV>)
    requires
        lower_spawn(s, items) is Ok,
    ensures
        conflict_free(items),
    decreases items, 3int,
{
    lemma_ok_cf_items(items);
}

/// Spawner-mode lowering succeeds exactly when no non-marker node anywhere
/// in the items carries both `default` and `no_default` — hierarchy and
/// control flow never fail in this mode.
pub proof fn lemma_spawn_ok_iff_conflict_free(s: Seq<char>, items: Seq<ChildV>)
    ensures
        lower_spawn(s, items) is Ok <==> conflict_free(items),
{
    if conflict_free(items) {
        lemma_cf_spawn(s, items);
    }
    if lower_spawn(s, items) is Ok {
        lemma_spawn_cf(s, items);
    }
}

// ---------------------------------------------------------------------------
// When pure composition succeeds
// ---------------------------------------------------------------------------

/// Every item is, transitively, a conflict-free plain node: no grouping
/// marker, no loop, no conditional anywhere.
pub open spec fn pure_items(items: Seq<ChildV>) -> bool
    decreases items,
{
    if items.len() == 0 {
        true
    } else {
        pure_item(items[0]) && pure_items(items.drop_first())
    }
}

/// Purity of one item.
pub open spec fn pure_item(item: ChildV) -> bool
    decreases item,
{
    match item {
        ChildV::Node(n) => !is_marker(n) && !flags_conflict(n) && pure_items(n.children),
        _ => false,
    }
}

/// Pure composition succeeds exactly on conflict-free plain-node trees.
pub proof fn lemma_bundle_ok_iff_pure(items: Seq<ChildV>)
    ensures
        lower_bundle(items) is Ok <==> pure_items(items),
    decreases items, 1int,
{
    if items.len() > 0 {
        lemma_bundle_item_ok_iff_pure(items[0]);
        lemma_bundle_ok_iff_pure(items.drop_first());
    }
}

proof fn lemma_bundle_item_ok_iff_pure(item: ChildV)
    ensures
        lower_bundle_item(item) is Ok <==> pure_item(item),
    decreases item, 2int,
{
    match item {
        ChildV::Node(n) => {
            if !is_marker(n) && !flags_conflict(n) {
                lemma_bundle_ok_iff_pure(n.children);
            }
        },
        _ => {},
    }
}

proof fn lemma_bundle_cf_err(items: Seq<ChildV>)
    requires
        conflict_free(items),
    ensures
        lower_bundle(items) is Ok || lower_bundle(items) == Err::<Seq<ComponentV>, LowerErrV>(
            LowerErrV::ControlFlowInBundle,
        ),
    decreases items, 1int,
{
    if items.len() > 0 {
        lemma_bundle_item_cf_err(items[0]);
        lemma_bundle_cf_err(items.drop_first());
    }
}

proof fn lemma_bundle_item_cf_err(item: ChildV)
    requires
        conflict_free_item(item),
    ensures
        lower_bundle_item(item) is Ok || lower_bundle_item(item) == Err::<
            Seq<ComponentV>,
            LowerErrV,
        >(LowerErrV::ControlFlowInBundle),
    decreases item, 2int,
{
    match item {
        ChildV::Node(n) => {
            if !is_marker(n) {
                lemma_bundle_cf_err(n.children);
            }
        },
        _ => {},
    }
}

proof fn lemma_pure_items_index(items: Seq<ChildV>, i: int)
    requires
        pure_items(items),
        0 <= i < items.len(),
    ensures
        pure_item(items[i]),
    decreases items,
{
    if i > 0 {
        assert(items.drop_first()[i - 1] == items[i]);
        lemma_pure_items_index(items.drop_first(), i - 1);
    }
}

/// Mode rejection: the same conflict-free items that lower fine under a
/// spawner fail in pure composition mode with the illegal-control-flow
/// error as soon as they hold a loop at top level.
pub proof fn lemma_mode_rejection(s: Seq<char>, items: Seq<ChildV>, i: int)
    requires
        conflict_free(items),
        0 <= i < items.len(),
        items[i] is For,
    ensures
        lower_spawn(s, items) is Ok,
        lower_bundle(items) == Err::<Seq<ComponentV>, LowerErrV>(LowerErrV::ControlFlowInBundle),
{
    lemma_cf_spawn(s, items);
    lemma_bundle_cf_err(items);
    lemma_bundle_ok_iff_pure(items);
    if pure_items(items) {
        lemma_pure_items_index(items, i);
    }
}

// ---------------------------------------------------------------------------
// Flag exclusivity
// ---------------------------------------------------------------------------

/// A non-marker node carrying both `default` and `no_default` always fails
/// lowering, in either mode, whatever else it carries.
pub proof fn lemma_flag_exclusivity(s: Seq<char>, n: NodeV)
    requires
        has_flag(n, "default"@),
        has_flag(n, "no_default"@),
        !is_marker(n),
    ensures
        lower_bundle(seq![ChildV::Node(n)]) == Err::<Seq<ComponentV>, LowerErrV>(
            LowerErrV::ConflictingFlags { tag: n.tag },
        ),
        lower_spawn(s, seq![ChildV::Node(n)]) == Err::<SpawnExprV, LowerErrV>(
            LowerErrV::ConflictingFlags { tag: n.tag },
        ),
{
    let items = seq![ChildV::Node(n)];
    assert(items[0] == ChildV::Node(n));
    assert(flags_conflict(n));
    assert(lower_bundle_item(items[0]) == Err::<Seq<ComponentV>, LowerErrV>(
        LowerErrV::ConflictingFlags { tag: n.tag },
    ));
    assert(flat_comps_item(items[0]) == Err::<Seq<ComponentV>, LowerErrV>(
        LowerErrV::ConflictingFlags { tag: n.tag },
    ));
}

} // verus!

verus! {

// ---------------------------------------------------------------------------
// Sibling flattening and the grouping marker
// ---------------------------------------------------------------------------

/// Sibling flattening: a plain node `a` holding a nested plain node `b`
/// holding a nested plain node `c` lowers to a single construction call
/// whose attached components are exactly `[a, b, c]` in source order —
/// nesting depth creates no hierarchy; only the grouping marker does.
pub proof fn lemma_sibling_flattening(s: Seq<char>, a: NodeV, b: NodeV, c: NodeV)
    requires
        !is_marker(a) && !flags_conflict(a),
        !is_marker(b) && !flags_conflict(b),
        !is_marker(c) && !flags_conflict(c),
        a.children == seq![ChildV::Node(b)],
        b.children == seq![ChildV::Node(c)],
        c.children == Seq::<ChildV>::empty(),
    ensures
        lower_spawn(s, seq![ChildV::Node(a)]) == Ok::<SpawnExprV, LowerErrV>(
            SpawnExprV {
                spawner: s,
                components: seq![component_of(a), component_of(b), component_of(c)],
                children: Seq::empty(),
            },
        ),
{
    let items = seq![ChildV::Node(a)];
    assert(items[0] == ChildV::Node(a));
    assert(a.children[0] == ChildV::Node(b));
    assert(b.children[0] == ChildV::Node(c));
    assert(items.drop_first() =~= Seq::<ChildV>::empty());
    assert(a.children.drop_first() =~= Seq::<ChildV>::empty());
    assert(b.children.drop_first() =~= Seq::<ChildV>::empty());
    assert(flat_comps(c.children) == Ok::<Seq<ComponentV>, LowerErrV>(Seq::empty()));
    assert(flat_comps_item(ChildV::Node(c)) matches Ok(cs) && cs =~= seq![component_of(c)]);
    assert(flat_comps(b.children) matches Ok(cs) && cs =~= seq![component_of(c)]);
    assert(flat_comps_item(ChildV::Node(b)) matches Ok(cs) && cs =~= seq![
        component_of(b),
        component_of(c),
    ]);
    assert(flat_comps(a.children) matches Ok(cs) && cs =~= seq![component_of(b), component_of(c)]);
    assert(flat_comps_item(ChildV::Node(a)) matches Ok(cs) && cs =~= seq![
        component_of(a),
        component_of(b),
        component_of(c),
    ]);
    assert(flat_comps(items) matches Ok(cs) && cs =~= seq![
        component_of(a),
        component_of(b),
        component_of(c),
    ]);
    assert(lower_stmts(c.children) == Ok::<Seq<SpawnStmtV>, LowerErrV>(Seq::empty()));
    assert(lower_stmt_item(ChildV::Node(c)) matches Ok(ss) && ss =~= Seq::<SpawnStmtV>::empty());
    assert(lower_stmts(b.children) matches Ok(ss) && ss =~= Seq::<SpawnStmtV>::empty());
    assert(lower_stmt_item(ChildV::Node(b)) matches Ok(ss) && ss =~= Seq::<SpawnStmtV>::empty());
    assert(lower_stmts(a.children) matches Ok(ss) && ss =~= Seq::<SpawnStmtV>::empty());
    assert(lower_stmt_item(ChildV::Node(a)) matches Ok(ss) && ss =~= Seq::<SpawnStmtV>::empty());
    assert(lower_stmts(items) matches Ok(ss) && ss =~= Seq::<SpawnStmtV>::empty());
}

/// The grouping marker creates real descendants: a node `a` whose body
/// wraps `d` in the marker produces two separate construction calls, `d`
/// being spawned in `a`'s child scope rather than attached to `a`.
pub proof fn lemma_marker_creates_descendants(s: Seq<char>, a: NodeV, m: NodeV, d: NodeV)
    requires
        !is_marker(a) && !flags_conflict(a),
        is_marker(m),
        !is_marker(d) && !flags_conflict(d),
        a.children == seq![ChildV::Node(m)],
        m.children == seq![ChildV::Node(d)],
        d.children == Seq::<ChildV>::empty(),
    ensures
        lower_spawn(s, seq![ChildV::Node(a)]) == Ok::<SpawnExprV, LowerErrV>(
            SpawnExprV {
                spawner: s,
                components: seq![component_of(a)],
                children: seq![
                    SpawnStmtV::Spawn(
                        SpawnExprV {
                            spawner: child_spawner(),
                            components: seq![component_of(d)],
                            children: Seq::empty(),
                        },
                    ),
                ],
            },
        ),
{
    let items = seq![ChildV::Node(a)];
    assert(items[0] == ChildV::Node(a));
    assert(a.children[0] == ChildV::Node(m));
    assert(m.children[0] == ChildV::Node(d));
    assert(items.drop_first() =~= Seq::<ChildV>::empty());
    assert(a.children.drop_first() =~= Seq::<ChildV>::empty());
    assert(m.children.drop_first() =~= Seq::<ChildV>::empty());
    // attached components: only `a`'s own — the marker contributes none
    assert(flat_comps_item(ChildV::Node(m)) matches Ok(cs) && cs =~= Seq::<ComponentV>::empty());
    assert(flat_comps(a.children) matches Ok(cs) && cs =~= Seq::<ComponentV>::empty());
    assert(flat_comps_item(ChildV::Node(a)) matches Ok(cs) && cs =~= seq![component_of(a)]);
    assert(flat_comps(items) matches Ok(cs) && cs =~= seq![component_of(a)]);
    // the marker's child list becomes a spawn under the child builder
    assert(flat_comps(d.children) == Ok::<Seq<ComponentV>, LowerErrV>(Seq::empty()));
    assert(flat_comps_item(ChildV::Node(d)) matches Ok(cs) && cs =~= seq![component_of(d)]);
    assert(flat_comps(m.children) matches Ok(cs) && cs =~= seq![component_of(d)]);
    assert(lower_stmts(d.children) == Ok::<Seq<SpawnStmtV>, LowerErrV>(Seq::empty()));
    assert(lower_stmt_item(ChildV::Node(d)) matches Ok(ss) && ss =~= Seq::<SpawnStmtV>::empty());
    assert(lower_stmts(m.children) matches Ok(ss) && ss =~= Seq::<SpawnStmtV>::empty());
    assert(lower_spawn(child_spawner(), m.children) == Ok::<SpawnExprV, LowerErrV>(
        SpawnExprV {
            spawner: child_spawner(),
            components: seq![component_of(d)],
            children: Seq::empty(),
        },
    ));
    let stmt = SpawnStmtV::Spawn(
        SpawnExprV {
            spawner: child_spawner(),
            components: seq![component_of(d)],
            children: Seq::empty(),
        },
    );
    assert(lower_stmt_item(ChildV::Node(m)) matches Ok(ss) && ss =~= seq![stmt]);
    assert(lower_stmts(a.children) matches Ok(ss) && ss =~= seq![stmt]);
    assert(lower_stmt_item(ChildV::Node(a)) matches Ok(ss) && ss =~= seq![stmt]);
    assert(lower_stmts(items) matches Ok(ss) && ss =~= seq![stmt]);
}

// ---------------------------------------------------------------------------
// The defaulting toggle
// ---------------------------------------------------------------------------

/// A node with attributes and no flags is constructed field by field with
/// the omitted fields default-filled; adding `no_default` drops the
/// default fill and keeps exactly the given fields.
pub proof fn lemma_defaulting_toggle(n: NodeV, m: NodeV)
    requires
        n.constructor is None,
        n.content is None,
        n.attributes.len() > 0,
        n.flags == Seq::<Seq<char>>::empty(),
        m.constructor is None,
        m.content is None,
        m.attributes == n.attributes,
        m.tag == n.tag,
        m.flags == seq!["no_default"@],
    ensures
        component_of(n) == (ComponentV::Fieldwise {
            tag: n.tag,
            fields: n.attributes,
            fill_default: true,
        }),
        component_of(m) == (ComponentV::Fieldwise {
            tag: n.tag,
            fields: n.attributes,
            fill_default: false,
        }),
{
    assert(!has_flag(n, "no_default"@));
    assert(m.flags[0] == "no_default"@);
    assert(has_flag(m, "no_default"@));
}

// ---------------------------------------------------------------------------
// Loops and conditionals
// ---------------------------------------------------------------------------

/// Loop body independence: a `for` item lowers to a loop statement whose
/// body spawns directly under the enclosing builder's child scope — the
/// loop construct itself attaches no component and creates no wrapper
/// object.
pub proof fn lemma_loop_body_independence(s: Seq<char>, f: ForV, b: SpawnExprV)
    requires
        lower_spawn(child_spawner(), f.body) == Ok::<SpawnExprV, LowerErrV>(b),
    ensures
        lower_spawn(s, seq![ChildV::For(f)]) == Ok::<SpawnExprV, LowerErrV>(
            SpawnExprV {
                spawner: s,
                components: Seq::empty(),
                children: seq![SpawnStmtV::For { pat: f.pat, iter: f.expr, body: b }],
            },
        ),
{
    reveal_with_fuel(flat_comps, 3);
    reveal_with_fuel(lower_stmts, 3);
    let items = seq![ChildV::For(f)];
    assert(items[0] == ChildV::For(f));
    assert(items.drop_first() =~= Seq::<ChildV>::empty());
    assert(flat_comps_item(items[0]) matches Ok(cs) && cs =~= Seq::<ComponentV>::empty());
    assert(flat_comps(items) matches Ok(cs) && cs =~= Seq::<ComponentV>::empty());
    let stmt = SpawnStmtV::For { pat: f.pat, iter: f.expr, body: b };
    assert(lower_stmt_item(items[0]) matches Ok(ss) && ss =~= seq![stmt]);
    assert(lower_stmts(items) matches Ok(ss) && ss =~= seq![stmt]);
}

/// If/else-if chain fidelity: `if c1 {a} else if c2 {b} else {c}` lowers
/// to a conditional whose three branches are the three lowered bodies,
/// nested exactly as in the source.
pub proof fn lemma_if_chain_fidelity(
    s: Seq<char>,
    i: IfV,
    i2: IfV,
    c: Seq<ChildV>,
    ta: SpawnExprV,
    tb: SpawnExprV,
    tc: SpawnExprV,
)
    requires
        i.else_branch == Some(Box::new(ElseV::If(i2))),
        i2.else_branch == Some(Box::new(ElseV::Block(c))),
        lower_spawn(child_spawner(), i.then_branch) == Ok::<SpawnExprV, LowerErrV>(ta),
        lower_spawn(child_spawner(), i2.then_branch) == Ok::<SpawnExprV, LowerErrV>(tb),
        lower_spawn(child_spawner(), c) == Ok::<SpawnExprV, LowerErrV>(tc),
    ensures
        lower_spawn(s, seq![ChildV::If(i)]) == Ok::<SpawnExprV, LowerErrV>(
            SpawnExprV {
                spawner: s,
                components: Seq::empty(),
                children: seq![
                    SpawnStmtV::If(
                        IfStmtV {
                            condition: i.condition,
                            then_branch: ta,
                            else_branch: Some(
                                Box::new(
                                    ElseStmtV::ElseIf(
                                        IfStmtV {
                                            condition: i2.condition,
                                            then_branch: tb,
                                            else_branch: Some(Box::new(ElseStmtV::Block(tc))),
                                        },
                                    ),
                                ),
                            ),
                        },
                    ),
                ],
            },
        ),
{
    reveal_with_fuel(flat_comps, 3);
    reveal_with_fuel(lower_stmts, 3);
    let items = seq![ChildV::If(i)];
    assert(items[0] == ChildV::If(i));
    assert(items.drop_first() =~= Seq::<ChildV>::empty());
    assert(flat_comps_item(items[0]) matches Ok(cs) && cs =~= Seq::<ComponentV>::empty());
    assert(flat_comps(items) matches Ok(cs) && cs =~= Seq::<ComponentV>::empty());
    let inner = IfStmtV {
        condition: i2.condition,
        then_branch: tb,
        else_branch: Some(Box::new(ElseStmtV::Block(tc))),
    };
    assert(lower_else(ElseV::Block(c)) == Ok::<ElseStmtV, LowerErrV>(ElseStmtV::Block(tc)));
    assert(lower_if_chain(i2) == Ok::<IfStmtV, LowerErrV>(inner));
    assert(lower_else(ElseV::If(i2)) == Ok::<ElseStmtV, LowerErrV>(ElseStmtV::ElseIf(inner)));
    let outer = IfStmtV {
        condition: i.condition,
        then_branch: ta,
        else_branch: Some(Box::new(ElseStmtV::ElseIf(inner))),
    };
    assert(lower_if_chain(i) == Ok::<IfStmtV, LowerErrV>(outer));
    assert(lower_stmt_item(items[0]) matches Ok(ss) && ss =~= seq![SpawnStmtV::If(outer)]);
    assert(lower_stmts(items) matches Ok(ss) && ss =~= seq![SpawnStmtV::If(outer)]);
}

/// Omitting the final `else` leaves the false case a no-op: the lowered
/// conditional carries no else branch at all.
pub proof fn lemma_if_without_else(s: Seq<char>, i: IfV, ta: SpawnExprV)
    requires
        i.else_branch is None,
        lower_spawn(child_spawner(), i.then_branch) == Ok::<SpawnExprV, LowerErrV>(ta),
    ensures
        lower_spawn(s, seq![ChildV::If(i)]) == Ok::<SpawnExprV, LowerErrV>(
            SpawnExprV {
                spawner: s,
                components: Seq::empty(),
                children: seq![
                    SpawnStmtV::If(
                        IfStmtV { condition: i.condition, then_branch: ta, else_branch: None },
                    ),
                ],
            },
        ),
{
    reveal_with_fuel(flat_comps, 3);
    reveal_with_fuel(lower_stmts, 3);
    let items = seq![ChildV::If(i)];
    assert(items[0] == ChildV::If(i));
    assert(items.drop_first() =~= Seq::<ChildV>::empty());
    assert(flat_comps_item(items[0]) matches Ok(cs) && cs =~= Seq::<ComponentV>::empty());
    assert(flat_comps(items) matches Ok(cs) && cs =~= Seq::<ComponentV>::empty());
    let stmt = SpawnStmtV::If(
        IfStmtV { condition: i.condition, then_branch: ta, else_branch: None },
    );
    assert(lower_stmt_item(items[0]) matches Ok(ss) && ss =~= seq![stmt]);
    assert(lower_stmts(items) matches Ok(ss) && ss =~= seq![stmt]);
}

// ---------------------------------------------------------------------------
// Closing-tag discipline
// ---------------------------------------------------------------------------

/// A successfully parsed element either is self-closing or ends with a
/// closing tag whose identifier equals its opening tag: an element whose
/// closing identifier differs from its tag can never parse, at any
/// nesting depth and with any body shape.
pub proof fn lemma_closing_tag_must_match(toks: Seq<Tok>, pos: int, nv: NodeV, p2: int)
    requires
        p_node(toks, pos) == PStep::<NodeV>::Done(nv, p2),
    ensures
        0 <= p2 - 1 < toks.len(),
        toks[p2 - 1] matches Tok::Punct(ch) && ch == '>',
        toks[p2 - 2] matches Tok::Ident(name) ==> name@ == nv.tag,
{
}

} // verus!

verus! {

/// An element body is either an expression list or nested items, never
/// both: a parsed node carrying content has no children.
pub proof fn lemma_body_exclusivity(toks: Seq<Tok>, pos: int, nv: NodeV, p2: int)
    requires
        p_node(toks, pos) == PStep::<NodeV>::Done(nv, p2),
    ensures
        nv.content is Some ==> nv.children.len() == 0,
{
}

} // verus!
