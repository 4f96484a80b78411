use vstd::prelude::*;

use crate::engine::{
    commands_for, dispatched, next_visible, other_tracked_open, reconciled, CompositorUnavailable,
    EngineMessage,
};

verus! {

/// The namespaces of `names` that `config` tracks, in order.
pub open spec fn tracked_only(config: Map<Seq<char>, Seq<char>>, names: Seq<Seq<char>>) -> Seq<
    Seq<char>,
> {
    names.filter(|n: Seq<char>| config.contains_key(n))
}

/// The dismiss commands of a concatenation are those of its parts, in order.
pub proof fn lemma_commands_for_append(
    config: Map<Seq<char>, Seq<char>>,
    x: Seq<Seq<char>>,
    y: Seq<Seq<char>>,
)
    ensures
        commands_for(config, x + y) == commands_for(config, x) + commands_for(config, y),
    decreases y.len(),
{
    if y.len() == 0 {
        assert(x + y =~= x);
        assert(commands_for(config, x) + commands_for(config, y) =~= commands_for(config, x));
    } else {
        lemma_commands_for_append(config, x, y.drop_last());
        assert((x + y).drop_last() =~= x + y.drop_last());
        assert((x + y).last() == y.last());
        if config.contains_key(y.last()) {
            assert(commands_for(config, x + y) =~= commands_for(config, x) + commands_for(
                config,
                y,
            ));
        }
    }
}

/// Untracked namespaces give no dismiss command.
pub proof fn lemma_commands_for_untracked(config: Map<Seq<char>, Seq<char>>, names: Seq<Seq<char>>)
    requires
        forall|i: int| 0 <= i < names.len() ==> !config.contains_key(#[trigger] names[i]),
    ensures
        commands_for(config, names) == Seq::<Seq<char>>::empty(),
    decreases names.len(),
{
    if names.len() > 0 {
        let prefix = names.drop_last();
        assert forall|i: int| 0 <= i < prefix.len() implies !config.contains_key(
            #[trigger] prefix[i],
        ) by {
            assert(prefix[i] == names[i]);
        }
        lemma_commands_for_untracked(config, prefix);
        assert(!config.contains_key(names[names.len() - 1]));
    }
}

/// Filtering out only untracked namespaces keeps the dismiss commands.
pub proof fn lemma_commands_for_filter(
    config: Map<Seq<char>, Seq<char>>,
    names: Seq<Seq<char>>,
    keep: spec_fn(Seq<char>) -> bool,
)
    requires
        forall|n: Seq<char>| config.contains_key(n) ==> #[trigger] keep(n),
    ensures
        commands_for(config, names.filter(keep)) == commands_for(config, names),
    decreases names.len(),
{
    reveal(Seq::filter);
    if names.len() > 0 {
        lemma_commands_for_filter(config, names.drop_last(), keep);
        let sub = names.drop_last().filter(keep);
        if keep(names.last()) {
            assert(names.filter(keep) == sub.push(names.last()));
            assert(names.filter(keep).drop_last() =~= sub);
        } else {
            assert(names.filter(keep) == sub);
        }
    }
}

/// Filtering out only untracked namespaces from a snapshot changes neither
/// the next visibility nor the dismiss commands, whatever the message.
pub proof fn lemma_filter_untracked_inert(
    config: Map<Seq<char>, Seq<char>>,
    visible: bool,
    msg: EngineMessage,
    names: Seq<Seq<char>>,
    keep: spec_fn(Seq<char>) -> bool,
)
    requires
        forall|n: Seq<char>| config.contains_key(n) ==> #[trigger] keep(n),
    ensures
        next_visible(config, visible, msg, names.filter(keep)) == next_visible(
            config,
            visible,
            msg,
            names,
        ),
        dispatched(config, msg, names.filter(keep)) == dispatched(config, msg, names),
{
    let kept = names.filter(keep);
    lemma_commands_for_filter(config, names, keep);
    if let EngineMessage::CloseLayer(ns) = msg {
        if other_tracked_open(config, names, ns@) {
            let i = choose|i: int|
                0 <= i < names.len() && config.contains_key(#[trigger] names[i]) && names[i]
                    != ns@;
            names.lemma_filter_contains(keep, i);
            let j = choose|j: int| 0 <= j < kept.len() && kept[j] == names[i];
            assert(config.contains_key(kept[j]));
        }
        if other_tracked_open(config, kept, ns@) {
            let j = choose|j: int|
                0 <= j < kept.len() && config.contains_key(#[trigger] kept[j]) && kept[j] != ns@;
            assert(kept.contains(kept[j]));
            names.lemma_filter_contains_rev(keep, kept[j]);
            let i = choose|i: int| 0 <= i < names.len() && names[i] == kept[j];
            assert(config.contains_key(names[i]));
        }
    }
}

/// Opening a tracked namespace while the overlay is visible keeps it visible
/// and dispatches nothing; opening it again changes nothing further.
pub proof fn lemma_open_idempotent(
    config: Map<Seq<char>, Seq<char>>,
    visible: bool,
    ns: String,
    names: Seq<Seq<char>>,
)
    requires
        config.contains_key(ns@),
    ensures
        next_visible(config, true, EngineMessage::OpenLayer(ns), names),
        dispatched(config, EngineMessage::OpenLayer(ns), names) == Seq::<Seq<char>>::empty(),
        next_visible(
            config,
            next_visible(config, visible, EngineMessage::OpenLayer(ns), names),
            EngineMessage::OpenLayer(ns),
            names,
        ) == next_visible(config, visible, EngineMessage::OpenLayer(ns), names),
{
}

/// Opening an untracked namespace neither changes the visibility nor
/// dispatches anything.
pub proof fn lemma_untracked_open_inert(
    config: Map<Seq<char>, Seq<char>>,
    visible: bool,
    ns: String,
    names: Seq<Seq<char>>,
)
    requires
        !config.contains_key(ns@),
    ensures
        next_visible(config, visible, EngineMessage::OpenLayer(ns), names) == visible,
        dispatched(config, EngineMessage::OpenLayer(ns), names) == Seq::<Seq<char>>::empty(),
{
}

/// Closing an untracked namespace neither changes the visibility nor
/// dispatches anything, whatever the snapshot shows.
pub proof fn lemma_untracked_close_inert(
    config: Map<Seq<char>, Seq<char>>,
    visible: bool,
    ns: String,
    names: Seq<Seq<char>>,
)
    requires
        !config.contains_key(ns@),
    ensures
        next_visible(config, visible, EngineMessage::CloseLayer(ns), names) == visible,
        dispatched(config, EngineMessage::CloseLayer(ns), names) == Seq::<Seq<char>>::empty(),
{
}

/// A failed snapshot query is fatal for the message in hand: it is passed
/// on as the error, the visibility stays as it was, and no dismiss command
/// comes back.
pub proof fn lemma_query_failure_fatal(
    config: Map<Seq<char>, Seq<char>>,
    visible: bool,
    msg: EngineMessage,
)
    ensures
        reconciled(config, visible, msg, Err(CompositorUnavailable)) == (
            visible,
            Err::<Seq<Seq<char>>, CompositorUnavailable>(CompositorUnavailable),
        ),
{
}

/// Layers of untracked namespaces in a snapshot are inert: removing them
/// changes neither the next visibility nor the dismiss commands, whatever
/// the message.
pub proof fn lemma_untracked_layers_inert(
    config: Map<Seq<char>, Seq<char>>,
    visible: bool,
    msg: EngineMessage,
    names: Seq<Seq<char>>,
)
    ensures
        next_visible(config, visible, msg, tracked_only(config, names)) == next_visible(
            config,
            visible,
            msg,
            names,
        ),
        dispatched(config, msg, tracked_only(config, names)) == dispatched(config, msg, names),
{
    lemma_filter_untracked_inert(config, visible, msg, names, |n: Seq<char>| config.contains_key(n));
}

/// The layers of one untracked namespace are inert: removing every layer of
/// that namespace from a snapshot changes neither the next visibility nor the
/// dismiss commands, whatever the message.
pub proof fn lemma_untracked_namespace_inert(
    config: Map<Seq<char>, Seq<char>>,
    visible: bool,
    msg: EngineMessage,
    ns: Seq<char>,
    names: Seq<Seq<char>>,
)
    requires
        !config.contains_key(ns),
    ensures
        next_visible(config, visible, msg, names.filter(|n: Seq<char>| n != ns)) == next_visible(
            config,
            visible,
            msg,
            names,
        ),
        dispatched(config, msg, names.filter(|n: Seq<char>| n != ns)) == dispatched(
            config,
            msg,
            names,
        ),
{
    lemma_filter_untracked_inert(config, visible, msg, names, |n: Seq<char>| n != ns);
}

/// With two tracked namespaces both open, closing one keeps the overlay
/// visible; closing the other once the snapshot shows neither hides it.
pub proof fn lemma_multi_panel_retention(
    config: Map<Seq<char>, Seq<char>>,
    a: String,
    b: String,
    first: Seq<Seq<char>>,
    second: Seq<Seq<char>>,
)
    requires
        config.dom() == set![a@, b@],
        a@ != b@,
        first.contains(a@),
        first.contains(b@),
        !second.contains(a@),
        !second.contains(b@),
    ensures
        next_visible(config, true, EngineMessage::CloseLayer(a), first),
        !next_visible(
            config,
            next_visible(config, true, EngineMessage::CloseLayer(a), first),
            EngineMessage::CloseLayer(b),
            second,
        ),
{
    let j = choose|j: int| 0 <= j < first.len() && first[j] == b@;
    assert(config.contains_key(first[j]));
    assert(other_tracked_open(config, first, a@));
    if other_tracked_open(config, second, b@) {
        let i = choose|i: int|
            0 <= i < second.len() && config.contains_key(#[trigger] second[i]) && second[i] != b@;
        assert(second[i] == a@ || second[i] == b@);
        assert(second.contains(second[i]));
    }
}

/// With two tracked namespaces each shown once by the snapshot, a dismissal
/// dispatches both commands once, in traversal order, and hides the overlay.
pub proof fn lemma_dismiss_fan_out(
    config: Map<Seq<char>, Seq<char>>,
    visible: bool,
    a: Seq<char>,
    b: Seq<char>,
    before: Seq<Seq<char>>,
    between: Seq<Seq<char>>,
    after: Seq<Seq<char>>,
)
    requires
        config.dom() == set![a, b],
        a != b,
        !before.contains(a) && !before.contains(b),
        !between.contains(a) && !between.contains(b),
        !after.contains(a) && !after.contains(b),
    ensures
        dispatched(config, EngineMessage::Hide, before + seq![a] + between + seq![b] + after)
            == seq![config[a], config[b]],
        !next_visible(
            config,
            visible,
            EngineMessage::Hide,
            before + seq![a] + between + seq![b] + after,
        ),
{
    assert forall|s: Seq<Seq<char>>, i: int|
        !s.contains(a) && !s.contains(b) && 0 <= i < s.len() implies !config.contains_key(
        #[trigger] s[i],
    ) by {
        assert(s.contains(s[i]));
    }
    lemma_commands_for_untracked(config, before);
    lemma_commands_for_untracked(config, between);
    lemma_commands_for_untracked(config, after);
    assert(commands_for(config, seq![a]) =~= seq![config[a]]) by {
        assert(set![a, b].contains(a));
        assert(seq![a].drop_last() =~= Seq::<Seq<char>>::empty());
        assert(commands_for(config, Seq::<Seq<char>>::empty()) == Seq::<Seq<char>>::empty());
    }
    assert(commands_for(config, seq![b]) =~= seq![config[b]]) by {
        assert(set![a, b].contains(b));
        assert(seq![b].drop_last() =~= Seq::<Seq<char>>::empty());
        assert(commands_for(config, Seq::<Seq<char>>::empty()) == Seq::<Seq<char>>::empty());
    }
    lemma_commands_for_append(config, before, seq![a]);
    lemma_commands_for_append(config, before + seq![a], between);
    lemma_commands_for_append(config, before + seq![a] + between, seq![b]);
    lemma_commands_for_append(config, before + seq![a] + between + seq![b], after);
    assert(commands_for(config, before + seq![a] + between + seq![b] + after) =~= seq![
        config[a],
        config[b],
    ]);
}

} // verus!
