//! Culling of recorded drawing commands against the region being redrawn:
//! commands outside it are skipped, and so is everything inside a clip that
//! lies outside it.
use crate::paint::{balanced, lemma_scopes_concat, lemma_scopes_one, scope_step, scopes_after, PaintOp, PaintScope};
use vstd::prelude::*;

verus! {

/// How the culling treats a recorded command.
#[derive(Debug, Clone, Copy, PartialEq, Eq, Structural)]
pub enum CommandKind {
    /// Starts a layer; always runs outside a skipped clip.
    PushLayer,
    /// Ends a layer; always runs outside a skipped clip.
    PopLayer,
    /// Starts a clip, rounded or axis-aligned; a clip outside the region is
    /// skipped with everything up to its end.
    PushClip { rounded: bool },
    /// Ends a clip.
    PopClip { rounded: bool },
    /// Draws something; runs only where it meets the region.
    Draw,
    /// Runs wherever it stands outside a skipped clip (clearing, setting the
    /// brush colour).
    Always,
}

pub open spec fn clip_scope(rounded: bool) -> PaintScope {
    if rounded {
        PaintScope::RoundedClip
    } else {
        PaintScope::AxisClip
    }
}

/// The open scopes after `kind`, or `None` when it ends a scope that is not
/// the innermost open one.
pub open spec fn command_step(stack: Seq<PaintScope>, kind: CommandKind) -> Option<Seq<PaintScope>> {
    match kind {
        CommandKind::PushLayer => Some(stack.push(PaintScope::Layer)),
        CommandKind::PushClip { rounded } => Some(stack.push(clip_scope(rounded))),
        CommandKind::PopLayer => if stack.len() > 0 && stack.last() == PaintScope::Layer {
            Some(stack.drop_last())
        } else {
            None
        },
        CommandKind::PopClip { rounded } => if stack.len() > 0 && stack.last() == clip_scope(
            rounded,
        ) {
            Some(stack.drop_last())
        } else {
            None
        },
        _ => Some(stack),
    }
}

/// The open scopes after the commands `kinds`, from none open.
pub open spec fn command_scopes(kinds: Seq<CommandKind>) -> Option<Seq<PaintScope>>
    decreases kinds.len(),
{
    if kinds.len() == 0 {
        Some(Seq::empty())
    } else {
        match command_scopes(kinds.drop_last()) {
            Some(stack) => command_step(stack, kinds.last()),
            None => None,
        }
    }
}

/// Every scope the commands open they close again, innermost first.
pub open spec fn commands_balanced(kinds: Seq<CommandKind>) -> bool {
    command_scopes(kinds) == Some(Seq::<PaintScope>::empty())
}

/// One command of the culling: whether it runs, and the depth of skipped
/// clips after it.
pub open spec fn cull_step(kind: CommandKind, visible: bool, depth: nat) -> (bool, nat) {
    if depth > 0 {
        match kind {
            CommandKind::PushClip { .. } => (false, depth + 1),
            CommandKind::PopClip { .. } => (false, (depth - 1) as nat),
            _ => (false, depth),
        }
    } else {
        match kind {
            CommandKind::Draw => (visible, 0),
            CommandKind::PushClip { .. } => if visible {
                (true, 0)
            } else {
                (false, 1)
            },
            _ => (true, 0),
        }
    }
}

/// The depth of skipped clips after the commands `kinds`.
pub open spec fn cull_depth(kinds: Seq<CommandKind>, visible: Seq<bool>) -> nat
    decreases kinds.len(),
{
    if kinds.len() == 0 {
        0
    } else {
        cull_step(
            kinds.last(),
            visible[kinds.len() - 1],
            cull_depth(kinds.drop_last(), visible),
        ).1
    }
}

/// Which of the commands `kinds` run.
pub open spec fn cull_mask(kinds: Seq<CommandKind>, visible: Seq<bool>) -> Seq<bool>
    decreases kinds.len(),
{
    if kinds.len() == 0 {
        Seq::empty()
    } else {
        cull_mask(kinds.drop_last(), visible).push(
            cull_step(
                kinds.last(),
                visible[kinds.len() - 1],
                cull_depth(kinds.drop_last(), visible),
            ).0,
        )
    }
}

proof fn lemma_cull_depth_bound(kinds: Seq<CommandKind>, visible: Seq<bool>)
    ensures
        cull_depth(kinds, visible) <= kinds.len(),
        cull_mask(kinds, visible).len() == kinds.len(),
    decreases kinds.len(),
{
    if kinds.len() > 0 {
        lemma_cull_depth_bound(kinds.drop_last(), visible);
    }
}

/// Which recorded commands run when the region `visible` marks is redrawn:
/// `visible[i]` says whether command `i`'s bounds meet the region.
pub fn cull_commands(kinds: &[CommandKind], visible: &[bool]) -> (mask: Vec<bool>)
    requires
        kinds@.len() == visible@.len(),
    ensures
        mask@ == cull_mask(kinds@, visible@),
{
    let mut mask: Vec<bool> = Vec::new();
    let mut depth: usize = 0;
    let mut i: usize = 0;
    while i < kinds.len()
        invariant
            i <= kinds@.len(),
            kinds@.len() == visible@.len(),
            depth == cull_depth(kinds@.subrange(0, i as int), visible@),
            mask@ == cull_mask(kinds@.subrange(0, i as int), visible@),
        decreases kinds@.len() - i,
    {
        let prefix = Ghost(kinds@.subrange(0, (i + 1) as int));
        assert(prefix@.drop_last() =~= kinds@.subrange(0, i as int));
        proof {
            lemma_cull_depth_bound(kinds@.subrange(0, i as int), visible@);
        }
        let run = if depth > 0 {
            match kinds[i] {
                CommandKind::PushClip { .. } => {
                    depth = depth + 1;
                },
                CommandKind::PopClip { .. } => {
                    depth = depth - 1;
                },
                _ => {},
            }
            false
        } else {
            match kinds[i] {
                CommandKind::Draw => visible[i],
                CommandKind::PushClip { .. } => if visible[i] {
                    true
                } else {
                    depth = 1;
                    false
                },
                _ => true,
            }
        };
        mask.push(run);
        i += 1;
    }
    assert(kinds@.subrange(0, kinds@.len() as int) =~= kinds@);
    mask
}

/// The positions `i` with `mask[i]` set, in increasing order.
pub open spec fn set_positions(mask: Seq<bool>) -> Seq<usize>
    decreases mask.len(),
{
    if mask.len() == 0 {
        Seq::empty()
    } else if mask.last() {
        set_positions(mask.drop_last()).push((mask.len() - 1) as usize)
    } else {
        set_positions(mask.drop_last())
    }
}

/// The positions of the recorded commands to run, in the order they run:
/// every command once, in order, where no region is given; with a region
/// (`visible[i]` says whether command `i` meets it), those that the culling
/// keeps, in order.
pub fn commands_to_run(kinds: &[CommandKind], visible: Option<&[bool]>) -> (r: Vec<usize>)
    requires
        visible matches Some(v) ==> v@.len() == kinds@.len(),
    ensures
        visible is None ==> r@ == Seq::new(kinds@.len(), |i: int| i as usize),
        visible matches Some(v) ==> r@ == set_positions(cull_mask(kinds@, v@)),
{
    let mask: Vec<bool> = match visible {
        None => {
            let mut all: Vec<bool> = Vec::new();
            let mut i: usize = 0;
            while i < kinds.len()
                invariant
                    i <= kinds@.len(),
                    all@ == Seq::new(i as nat, |k: int| true),
                decreases kinds@.len() - i,
            {
                all.push(true);
                i += 1;
                assert(all@ =~= Seq::new(i as nat, |k: int| true));
            }
            all
        },
        Some(v) => cull_commands(kinds, v),
    };
    let ghost m = mask@;
    let mut r: Vec<usize> = Vec::new();
    let mut i: usize = 0;
    while i < mask.len()
        invariant
            i <= mask@.len(),
            mask@ == m,
            r@ == set_positions(m.take(i as int)),
        decreases mask@.len() - i,
    {
        assert(m.take(i + 1).drop_last() =~= m.take(i as int));
        if mask[i] {
            r.push(i);
        }
        i += 1;
    }
    assert(m.take(m.len() as int) =~= m);
    proof {
        if visible is None {
            lemma_all_set_positions(kinds@.len());
        }
    }
    r
}

proof fn lemma_all_set_positions(n: nat)
    requires
        n <= usize::MAX,
    ensures
        set_positions(Seq::new(n, |k: int| true)) == Seq::new(n, |i: int| i as usize),
    decreases n,
{
    if n > 0 {
        lemma_all_set_positions((n - 1) as nat);
        assert(Seq::new(n, |k: int| true).drop_last() =~= Seq::new((n - 1) as nat, |k: int| true));
        assert(Seq::new((n - 1) as nat, |i: int| i as usize).push((n - 1) as usize) =~= Seq::new(
            n,
            |i: int| i as usize,
        ));
    }
}

/// The net number of clips that `kinds` opens: pushes less pops.
pub open spec fn clip_balance(kinds: Seq<CommandKind>) -> int
    decreases kinds.len(),
{
    if kinds.len() == 0 {
        0
    } else {
        clip_balance(kinds.drop_last()) + match kinds.last() {
            CommandKind::PushClip { .. } => 1int,
            CommandKind::PopClip { .. } => -1int,
            _ => 0int,
        }
    }
}

proof fn lemma_cull_mask_take(kinds: Seq<CommandKind>, visible: Seq<bool>, n: int)
    requires
        0 <= n <= kinds.len(),
    ensures
        cull_mask(kinds.take(n), visible) == cull_mask(kinds, visible).take(n),
    decreases kinds.len(),
{
    lemma_cull_depth_bound(kinds, visible);
    lemma_cull_depth_bound(kinds.take(n), visible);
    if n == kinds.len() {
        assert(kinds.take(n) =~= kinds);
        assert(cull_mask(kinds, visible).take(n) =~= cull_mask(kinds, visible));
    } else {
        let front = kinds.drop_last();
        lemma_cull_mask_take(front, visible, n);
        assert(front.take(n) =~= kinds.take(n));
        lemma_cull_depth_bound(front, visible);
        assert(cull_mask(front, visible).take(n) =~= cull_mask(kinds, visible).take(n));
    }
}

proof fn lemma_cull_mask_at(kinds: Seq<CommandKind>, visible: Seq<bool>, k: int)
    requires
        visible.len() == kinds.len(),
        0 <= k < kinds.len(),
    ensures
        cull_mask(kinds, visible)[k] == cull_step(kinds[k], visible[k], cull_depth(kinds.take(k), visible)).0,
{
    lemma_cull_mask_take(kinds, visible, k + 1);
    lemma_cull_depth_bound(kinds, visible);
    let p = kinds.take(k + 1);
    assert(p.drop_last() =~= kinds.take(k));
    assert(p.last() == kinds[k]);
    lemma_cull_depth_bound(p.drop_last(), visible);
    let step = cull_step(kinds[k], visible[k], cull_depth(kinds.take(k), visible));
    assert(cull_mask(p, visible) == cull_mask(kinds.take(k), visible).push(step.0));
    assert(cull_mask(p, visible)[k] == step.0);
    assert(cull_mask(p, visible)[k] == cull_mask(kinds, visible).take(k + 1)[k]);
}

proof fn lemma_missed_clip_depth(kinds: Seq<CommandKind>, visible: Seq<bool>, i: int, k: int)
    requires
        visible.len() == kinds.len(),
        0 <= i <= k < kinds.len(),
        cull_depth(kinds.take(i), visible) == 0,
        kinds[i] is PushClip,
        !visible[i],
        forall|m: int| i <= m < k ==> clip_balance(#[trigger] kinds.subrange(i, m + 1)) > 0,
    ensures
        cull_depth(kinds.take(k + 1), visible) == clip_balance(kinds.subrange(i, k + 1)),
        !cull_mask(kinds, visible)[k],
    decreases k - i,
{
    lemma_cull_mask_at(kinds, visible, k);
    let p = kinds.take(k + 1);
    assert(p.drop_last() =~= kinds.take(k));
    assert(p.last() == kinds[k]);
    let sub = kinds.subrange(i, k + 1);
    assert(sub.last() == kinds[k]);
    assert(cull_depth(p, visible) == cull_step(kinds[k], visible[k], cull_depth(kinds.take(k), visible)).1);
    if k == i {
        assert(sub.drop_last() =~= Seq::<CommandKind>::empty());
        assert(clip_balance(Seq::<CommandKind>::empty()) == 0);
        assert(clip_balance(sub) == 1);
    } else {
        lemma_missed_clip_depth(kinds, visible, i, k - 1);
        assert(sub.drop_last() =~= kinds.subrange(i, k));
        assert(kinds.subrange(i, k) == kinds.subrange(i, (k - 1) + 1));
        assert(clip_balance(kinds.subrange(i, k)) > 0);
        assert(cull_depth(kinds.take(k), visible) == clip_balance(kinds.subrange(i, k)));
    }
}

/// A clip that misses the region, met where nothing is being skipped, is
/// skipped together with everything up to and with its matching end (the
/// first command `j` after which the clips opened from `i` on are all
/// closed again), and commands run again after that end.
pub proof fn lemma_missed_clip_skipped(kinds: Seq<CommandKind>, visible: Seq<bool>, i: int, j: int)
    requires
        visible.len() == kinds.len(),
        0 <= i < j < kinds.len(),
        cull_depth(kinds.take(i), visible) == 0,
        kinds[i] is PushClip,
        !visible[i],
        forall|m: int| i <= m < j ==> clip_balance(#[trigger] kinds.subrange(i, m + 1)) > 0,
        clip_balance(kinds.subrange(i, j + 1)) == 0,
    ensures
        forall|k: int| i <= k <= j ==> !(#[trigger] cull_mask(kinds, visible)[k]),
        cull_depth(kinds.take(j + 1), visible) == 0,
{
    assert forall|k: int| i <= k <= j implies !(#[trigger] cull_mask(kinds, visible)[k]) by {
        lemma_missed_clip_depth(kinds, visible, i, k);
    }
    lemma_missed_clip_depth(kinds, visible, i, j);
}

/// The commands of `kinds` that `mask` keeps, in order.
pub open spec fn kept(kinds: Seq<CommandKind>, mask: Seq<bool>) -> Seq<CommandKind>
    decreases kinds.len(),
{
    if kinds.len() == 0 {
        Seq::empty()
    } else {
        kept(kinds.drop_last(), mask) + if mask[kinds.len() - 1] {
            seq![kinds.last()]
        } else {
            Seq::empty()
        }
    }
}

pub open spec fn is_clip(scope: PaintScope) -> bool {
    scope == PaintScope::RoundedClip || scope == PaintScope::AxisClip
}

/// How many clips the scopes hold.
pub open spec fn clip_count(scopes: Seq<PaintScope>) -> nat
    decreases scopes.len(),
{
    if scopes.len() == 0 {
        0
    } else {
        clip_count(scopes.drop_last()) + if is_clip(scopes.last()) {
            1nat
        } else {
            0nat
        }
    }
}

/// How the scopes of all commands relate to those of the commands that run:
/// outside a skipped clip they are the same; inside one, those that run are
/// the ones below the first skipped clip, and the skipped clips above it
/// number one less than the depth.
pub open spec fn cull_invariant(all: Seq<PaintScope>, ran: Seq<PaintScope>, depth: nat) -> bool {
    if depth == 0 {
        ran == all
    } else {
        &&& ran.len() < all.len()
        &&& all.take(ran.len() as int) == ran
        &&& is_clip(all[ran.len() as int])
        &&& clip_count(all.skip(ran.len() + 1int)) == depth - 1
    }
}

proof fn lemma_cull_one(
    all: Seq<PaintScope>,
    ran: Seq<PaintScope>,
    depth: nat,
    kind: CommandKind,
    visible: bool,
)
    requires
        cull_invariant(all, ran, depth),
        command_step(all, kind) is Some,
    ensures
        ({
            let (run, next_depth) = cull_step(kind, visible, depth);
            let next_ran = if run {
                command_step(ran, kind)
            } else {
                Some(ran)
            };
            &&& next_ran is Some
            &&& cull_invariant(command_step(all, kind)->0, next_ran->0, next_depth)
        }),
{
    let next_all = command_step(all, kind)->0;
    if depth > 0 {
        let rest = all.skip(ran.len() + 1int);
        match kind {
            CommandKind::PushLayer | CommandKind::PushClip { .. } => {
                assert(next_all.take(ran.len() as int) =~= ran);
                assert(next_all[ran.len() as int] == all[ran.len() as int]);
                assert(next_all.skip(ran.len() + 1int) =~= rest.push(next_all.last()));
                assert(next_all.skip(ran.len() + 1int).drop_last() =~= rest);
            },
            CommandKind::PopLayer | CommandKind::PopClip { .. } => {
                if ran.len() + 1 == all.len() {
                    assert(rest.len() == 0);
                    assert(next_all =~= ran);
                } else {
                    assert(rest.len() > 0);
                    assert(rest.last() == all.last());
                    assert(next_all.take(ran.len() as int) =~= ran);
                    assert(next_all[ran.len() as int] == all[ran.len() as int]);
                    assert(next_all.skip(ran.len() + 1int) =~= rest.drop_last());
                }
            },
            _ => {},
        }
    } else {
        match kind {
            CommandKind::PushClip { rounded } => {
                if !visible {
                    assert(next_all.take(ran.len() as int) =~= ran);
                    assert(next_all.skip(ran.len() + 1int) =~= Seq::<PaintScope>::empty());
                }
            },
            _ => {},
        }
    }
}

proof fn lemma_cull_prefix(kinds: Seq<CommandKind>, visible: Seq<bool>)
    requires
        command_scopes(kinds) is Some,
        visible.len() >= kinds.len(),
    ensures
        command_scopes(kept(kinds, cull_mask(kinds, visible))) is Some,
        cull_invariant(
            command_scopes(kinds)->0,
            command_scopes(kept(kinds, cull_mask(kinds, visible)))->0,
            cull_depth(kinds, visible),
        ),
    decreases kinds.len(),
{
    if kinds.len() > 0 {
        let prefix = kinds.drop_last();
        let mask = cull_mask(kinds, visible);
        lemma_cull_depth_bound(prefix, visible);
        lemma_cull_depth_bound(kinds, visible);
        assert(command_scopes(prefix) is Some);
        lemma_cull_prefix(prefix, visible);
        let prefix_mask = cull_mask(prefix, visible);
        assert forall|i: int| 0 <= i < prefix.len() implies mask[i] == prefix_mask[i] by {}
        lemma_kept_same_mask(prefix, mask, prefix_mask);
        let kind = kinds.last();
        let vis = visible[kinds.len() - 1];
        let depth = cull_depth(prefix, visible);
        lemma_cull_one(
            command_scopes(prefix)->0,
            command_scopes(kept(prefix, prefix_mask))->0,
            depth,
            kind,
            vis,
        );
        let ran_prefix = kept(prefix, mask);
        let (run, next_depth) = cull_step(kind, vis, depth);
        assert(mask[kinds.len() - 1] == run);
        if run {
            assert(kept(kinds, mask) =~= ran_prefix.push(kind));
            assert(ran_prefix.push(kind).drop_last() =~= ran_prefix);
        } else {
            assert(kept(kinds, mask) =~= ran_prefix);
        }
    }
}

proof fn lemma_kept_same_mask(kinds: Seq<CommandKind>, a: Seq<bool>, b: Seq<bool>)
    requires
        forall|i: int| 0 <= i < kinds.len() ==> a[i] == b[i],
    ensures
        kept(kinds, a) == kept(kinds, b),
    decreases kinds.len(),
{
    if kinds.len() > 0 {
        lemma_kept_same_mask(kinds.drop_last(), a, b);
    }
}

/// Culling never unbalances a recording: of a balanced command list, the
/// commands that run are balanced too, since a skipped clip is skipped up
/// to and with its end.
pub proof fn lemma_culling_keeps_balance(kinds: Seq<CommandKind>, visible: Seq<bool>)
    requires
        commands_balanced(kinds),
        visible.len() == kinds.len(),
    ensures
        commands_balanced(kept(kinds, cull_mask(kinds, visible))),
{
    lemma_cull_prefix(kinds, visible);
}

/// With every command meeting the region, every command runs.
pub proof fn lemma_all_visible_all_run(kinds: Seq<CommandKind>, visible: Seq<bool>)
    requires
        visible.len() == kinds.len(),
        forall|i: int| 0 <= i < visible.len() ==> visible[i],
    ensures
        cull_depth(kinds, visible) == 0,
        forall|i: int| 0 <= i < kinds.len() ==> cull_mask(kinds, visible)[i],
{
    lemma_all_visible_all_run_prefix(kinds, visible);
}

proof fn lemma_all_visible_all_run_prefix(kinds: Seq<CommandKind>, visible: Seq<bool>)
    requires
        visible.len() >= kinds.len(),
        forall|i: int| 0 <= i < visible.len() ==> visible[i],
    ensures
        cull_depth(kinds, visible) == 0,
        forall|i: int| 0 <= i < kinds.len() ==> cull_mask(kinds, visible)[i],
    decreases kinds.len(),
{
    if kinds.len() > 0 {
        let prefix = kinds.drop_last();
        lemma_all_visible_all_run_prefix(prefix, visible);
        lemma_cull_depth_bound(prefix, visible);
        assert(visible[kinds.len() - 1]);
    }
}

// ---------------------------------------------------------------------------
// Culling a paint pass
// ---------------------------------------------------------------------------

/// How the culling treats the command recorded for a paint operation.
pub open spec fn kind_of_op(op: PaintOp) -> CommandKind {
    match op {
        PaintOp::PushLayer => CommandKind::PushLayer,
        PaintOp::PopLayer => CommandKind::PopLayer,
        PaintOp::PushClip { rounded } => CommandKind::PushClip { rounded },
        PaintOp::PopClip { rounded } => CommandKind::PopClip { rounded },
        PaintOp::PushTrackClip { .. } => CommandKind::PushClip { rounded: true },
        PaintOp::PopTrackClip { .. } => CommandKind::PopClip { rounded: true },
        _ => CommandKind::Draw,
    }
}

/// The culling kinds of the commands recorded for `ops`.
pub open spec fn kinds_of_ops(ops: Seq<PaintOp>) -> Seq<CommandKind> {
    Seq::new(ops.len(), |i: int| kind_of_op(ops[i]))
}

/// The scopes after the commands `kinds`, from the open scopes `stack`.
pub open spec fn command_scopes_from(stack: Seq<PaintScope>, kinds: Seq<CommandKind>) -> Option<
    Seq<PaintScope>,
>
    decreases kinds.len(),
{
    if kinds.len() == 0 {
        Some(stack)
    } else {
        match command_scopes_from(stack, kinds.drop_last()) {
            Some(st) => command_step(st, kinds.last()),
            None => None,
        }
    }
}

proof fn lemma_command_scopes_from_empty(kinds: Seq<CommandKind>)
    ensures
        command_scopes(kinds) == command_scopes_from(Seq::empty(), kinds),
    decreases kinds.len(),
{
    if kinds.len() > 0 {
        lemma_command_scopes_from_empty(kinds.drop_last());
    }
}

proof fn lemma_step_of_op(stack: Seq<PaintScope>, op: PaintOp)
    ensures
        scope_step(stack, op) == command_step(stack, kind_of_op(op)),
{
}

proof fn lemma_scopes_as_commands(stack: Seq<PaintScope>, ops: Seq<PaintOp>)
    ensures
        scopes_after(stack, ops) == command_scopes_from(stack, kinds_of_ops(ops)),
    decreases ops.len(),
{
    if ops.len() > 0 {
        let init = ops.drop_last();
        let last = ops.last();
        lemma_scopes_as_commands(stack, init);
        assert(init + seq![last] =~= ops);
        lemma_scopes_concat(stack, init, seq![last]);
        match scopes_after(stack, init) {
            Some(st) => {
                lemma_scopes_one(st, last);
                lemma_step_of_op(st, last);
            },
            None => {},
        }
        assert(kinds_of_ops(ops).drop_last() =~= kinds_of_ops(init));
    } else {
        assert(kinds_of_ops(ops).len() == 0);
    }
}

/// A paint pass whose recording is balanced stays balanced when culled:
/// the commands that run of its recording open and close their scopes in
/// order, whatever meets the redrawn region.
pub proof fn lemma_culled_pass_balanced(ops: Seq<PaintOp>, visible: Seq<bool>)
    requires
        balanced(ops),
        visible.len() == ops.len(),
    ensures
        commands_balanced(kinds_of_ops(ops)),
        commands_balanced(kept(kinds_of_ops(ops), cull_mask(kinds_of_ops(ops), visible))),
{
    lemma_scopes_as_commands(Seq::empty(), ops);
    lemma_command_scopes_from_empty(kinds_of_ops(ops));
    lemma_culling_keeps_balance(kinds_of_ops(ops), visible);
}

} // verus!
