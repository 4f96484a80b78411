use vstd::prelude::*;

use crate::config::LayerConfig;
use crate::snapshot::{strings_view, Snapshot};

verus! {

/// A message for the engine: the user dismissed the overlay, or the
/// compositor reported a layer of the given namespace opened or closed.
#[derive(Debug)]
pub enum EngineMessage {
    Hide,
    OpenLayer(String),
    CloseLayer(String),
}

/// What the engine asks of its caller after taking a message.
#[derive(PartialEq, Eq, Structural, Debug, Clone, Copy)]
pub enum Action {
    /// The message is fully handled.
    Done,
    /// Query a fresh compositor snapshot and hand it to `Engine::reconcile`.
    QuerySnapshot,
}

/// The compositor could not be reached for a snapshot. Fatal for the engine.
#[derive(PartialEq, Eq, Structural, Debug, Clone, Copy)]
pub struct CompositorUnavailable;

/// Some layer of the snapshot has a tracked namespace other than `ns`.
pub open spec fn other_tracked_open(
    config: Map<Seq<char>, Seq<char>>,
    names: Seq<Seq<char>>,
    ns: Seq<char>,
) -> bool {
    exists|i: int| 0 <= i < names.len() && config.contains_key(#[trigger] names[i]) && names[i] != ns
}

/// The dismiss commands of the tracked layers among `names`, one per layer,
/// in the order of `names`.
pub open spec fn commands_for(config: Map<Seq<char>, Seq<char>>, names: Seq<Seq<char>>) -> Seq<
    Seq<char>,
>
    decreases names.len(),
{
    if names.len() == 0 {
        Seq::empty()
    } else {
        let rest = commands_for(config, names.drop_last());
        if config.contains_key(names.last()) {
            rest.push(config[names.last()])
        } else {
            rest
        }
    }
}

/// Visibility of the overlay after `msg`, where `names` are the namespaces of
/// a fresh snapshot (read for `Hide` and `CloseLayer` only).
pub open spec fn next_visible(
    config: Map<Seq<char>, Seq<char>>,
    visible: bool,
    msg: EngineMessage,
    names: Seq<Seq<char>>,
) -> bool {
    match msg {
        EngineMessage::Hide => false,
        EngineMessage::OpenLayer(ns) => visible || config.contains_key(ns@),
        EngineMessage::CloseLayer(ns) => visible && (!config.contains_key(ns@) || other_tracked_open(
            config,
            names,
            ns@,
        )),
    }
}

/// The snapshot query's outcome, with the snapshot as its namespaces.
pub open spec fn query_view(query: Result<Snapshot, CompositorUnavailable>) -> Result<
    Seq<Seq<char>>,
    CompositorUnavailable,
> {
    match query {
        Ok(snapshot) => Ok(snapshot@),
        Err(e) => Err(e),
    }
}

/// Visibility and outcome of finishing `msg` with a snapshot query's result:
/// a failed query changes nothing and is passed on; a snapshot moves the
/// state by `next_visible` and yields the `dispatched` commands.
pub open spec fn reconciled(
    config: Map<Seq<char>, Seq<char>>,
    visible: bool,
    msg: EngineMessage,
    query: Result<Seq<Seq<char>>, CompositorUnavailable>,
) -> (bool, Result<Seq<Seq<char>>, CompositorUnavailable>) {
    match query {
        Err(e) => (visible, Err(e)),
        Ok(names) => (next_visible(config, visible, msg, names), Ok(dispatched(config, msg, names))),
    }
}

/// The dismiss commands to run for `msg`, in order, where `names` are the
/// namespaces of a fresh snapshot.
pub open spec fn dispatched(
    config: Map<Seq<char>, Seq<char>>,
    msg: EngineMessage,
    names: Seq<Seq<char>>,
) -> Seq<Seq<char>> {
    match msg {
        EngineMessage::Hide => commands_for(config, names),
        _ => Seq::empty(),
    }
}

impl EngineMessage {
    /// Whether handling this message needs a fresh compositor snapshot.
    pub open spec fn needs_snapshot_spec(&self) -> bool {
        !(self is OpenLayer)
    }

    pub fn needs_snapshot(&self) -> (r: bool)
        ensures
            r == self.needs_snapshot_spec(),
    {
        match self {
            EngineMessage::OpenLayer(_) => false,
            _ => true,
        }
    }
}

/// The reconciliation engine: the tracked namespaces with their dismiss
/// commands, and whether the overlay is visible.
pub struct Engine {
    visible: bool,
    layers: LayerConfig,
}

impl Engine {
    /// Whether the overlay is visible.
    pub closed spec fn visible(&self) -> bool {
        self.visible
    }

    /// The tracked namespaces and their dismiss commands.
    pub closed spec fn config(&self) -> Map<Seq<char>, Seq<char>> {
        self.layers@
    }

    /// A hidden overlay over the given configuration.
    pub fn new(layers: LayerConfig) -> (r: Engine)
        ensures
            !r.visible(),
            r.config() == layers@,
    {
        Engine { visible: false, layers }
    }

    pub fn is_visible(&self) -> (r: bool)
        ensures
            r == self.visible(),
    {
        self.visible
    }

    /// Whether `ns` is a tracked namespace.
    pub fn is_tracked(&self, ns: &String) -> (r: bool)
        ensures
            r == self.config().contains_key(ns@),
    {
        self.layers.contains_key(ns)
    }

    /// The dismiss command of `ns`; none for an untracked namespace.
    pub fn dismiss_command(&self, ns: &String) -> (r: Option<String>)
        ensures
            match r {
                Some(cmd) => self.config().contains_key(ns@) && cmd@ == self.config()[ns@],
                None => !self.config().contains_key(ns@),
            },
    {
        self.layers.get(ns)
    }

    /// A layer opened: a tracked namespace shows the overlay at once.
    pub fn open_layer(&mut self, ns: &String)
        ensures
            final(self).config() == old(self).config(),
            final(self).visible() == (old(self).visible() || old(self).config().contains_key(ns@)),
    {
        if self.layers.contains_key(ns) {
            self.visible = true;
        }
    }

    /// Whether `names` holds a tracked namespace other than `ns`.
    fn any_other_tracked(&self, names: &Vec<String>, ns: &String) -> (r: bool)
        ensures
            r == other_tracked_open(self.config(), strings_view(names@), ns@),
    {
        let ghost view = strings_view(names@);
        let mut i: usize = 0;
        while i < names.len()
            invariant
                i <= names@.len(),
                view == strings_view(names@),
                forall|j: int|
                    0 <= j < i ==> !(self.config().contains_key(#[trigger] view[j]) && view[j]
                        != ns@),
            decreases names@.len() - i,
        {
            if self.layers.contains_key(&names[i]) && names[i] != *ns {
                proof {
                    assert(view[i as int] == names@[i as int]@);
                }
                return true;
            }
            i = i + 1;
        }
        false
    }

    /// A layer closed: for a tracked namespace the overlay is hidden unless
    /// the snapshot still shows a tracked layer of another namespace; an
    /// untracked namespace leaves it as it is.
    pub fn close_layer(&mut self, ns: &String, snapshot: &Snapshot)
        ensures
            final(self).config() == old(self).config(),
            final(self).visible() == (old(self).visible() && (!old(self).config().contains_key(ns@)
                || other_tracked_open(old(self).config(), snapshot@, ns@))),
    {
        if self.layers.contains_key(ns) {
            let names = snapshot.namespaces();
            if !self.any_other_tracked(&names, ns) {
                self.visible = false;
            }
        }
    }

    /// The dismiss commands of the tracked layers among `names`, in order.
    fn commands(&self, names: &Vec<String>) -> (r: Vec<String>)
        ensures
            strings_view(r@) == commands_for(self.config(), strings_view(names@)),
    {
        let mut out: Vec<String> = Vec::new();
        let mut i: usize = 0;
        while i < names.len()
            invariant
                i <= names@.len(),
                strings_view(out@) == commands_for(
                    self.config(),
                    strings_view(names@.subrange(0, i as int)),
                ),
            decreases names@.len() - i,
        {
            let ghost prev = out@;
            let ghost upto = strings_view(names@.subrange(0, i + 1));
            proof {
                assert(upto.drop_last() =~= strings_view(names@.subrange(0, i as int)));
                assert(upto.last() == names@[i as int]@);
            }
            match self.layers.get(&names[i]) {
                Some(cmd) => {
                    out.push(cmd);
                    proof {
                        assert(strings_view(out@) =~= strings_view(prev).push(cmd@));
                    }
                },
                None => {},
            }
            i = i + 1;
        }
        proof {
            assert(names@.subrange(0, i as int) =~= names@);
        }
        out
    }

    /// The user dismissed the overlay: the commands of all tracked layers of
    /// the snapshot are returned, in traversal order, and the overlay is
    /// hidden whatever becomes of them.
    pub fn dismiss(&mut self, snapshot: &Snapshot) -> (r: Vec<String>)
        ensures
            final(self).config() == old(self).config(),
            !final(self).visible(),
            strings_view(r@) == commands_for(old(self).config(), snapshot@),
    {
        let names = snapshot.namespaces();
        let r = self.commands(&names);
        self.visible = false;
        r
    }

    /// Handles `msg` against a fresh snapshot and returns the dismiss
    /// commands to run, in order.
    pub fn update(&mut self, msg: &EngineMessage, snapshot: &Snapshot) -> (r: Vec<String>)
        ensures
            final(self).config() == old(self).config(),
            final(self).visible() == next_visible(
                old(self).config(),
                old(self).visible(),
                *msg,
                snapshot@,
            ),
            strings_view(r@) == dispatched(old(self).config(), *msg, snapshot@),
    {
        match msg {
            EngineMessage::Hide => self.dismiss(snapshot),
            EngineMessage::OpenLayer(ns) => {
                self.open_layer(ns);
                proof {
                    assert(strings_view(Seq::<String>::empty()) =~= Seq::<Seq<char>>::empty());
                }
                Vec::new()
            },
            EngineMessage::CloseLayer(ns) => {
                self.close_layer(ns, snapshot);
                proof {
                    assert(strings_view(Seq::<String>::empty()) =~= Seq::<Seq<char>>::empty());
                }
                Vec::new()
            },
        }
    }

    /// Takes a message. An opened layer is trusted at once; a closed layer
    /// and a dismissal wait for a snapshot, and the state is left as it was.
    pub fn handle(&mut self, msg: &EngineMessage) -> (r: Action)
        ensures
            final(self).config() == old(self).config(),
            r == (if msg.needs_snapshot_spec() {
                Action::QuerySnapshot
            } else {
                Action::Done
            }),
            msg.needs_snapshot_spec() ==> final(self).visible() == old(self).visible(),
            !msg.needs_snapshot_spec() ==> final(self).visible() == next_visible(
                old(self).config(),
                old(self).visible(),
                *msg,
                Seq::empty(),
            ),
    {
        match msg {
            EngineMessage::OpenLayer(ns) => {
                self.open_layer(ns);
                Action::Done
            },
            _ => Action::QuerySnapshot,
        }
    }

    /// Finishes `msg` with the outcome of the snapshot query. Without a
    /// snapshot nothing changes and the failure is passed on; with one, the
    /// state moves as `update` says and the dismiss commands come back.
    pub fn reconcile(
        &mut self,
        msg: &EngineMessage,
        query: Result<Snapshot, CompositorUnavailable>,
    ) -> (r: Result<Vec<String>, CompositorUnavailable>)
        ensures
            final(self).config() == old(self).config(),
            final(self).visible() == reconciled(
                old(self).config(),
                old(self).visible(),
                *msg,
                query_view(query),
            ).0,
            match r {
                Ok(cmds) => Ok(strings_view(cmds@)),
                Err(e) => Err(e),
            } == reconciled(old(self).config(), old(self).visible(), *msg, query_view(query)).1,
            match query {
                Err(e) => r == Err::<Vec<String>, CompositorUnavailable>(e) && final(self).visible()
                    == old(self).visible(),
                Ok(snapshot) => r is Ok && final(self).visible() == next_visible(
                    old(self).config(),
                    old(self).visible(),
                    *msg,
                    snapshot@,
                ) && strings_view(r->Ok_0@) == dispatched(old(self).config(), *msg, snapshot@),
            },
    {
        match query {
            Err(e) => Err(e),
            Ok(snapshot) => Ok(self.update(msg, &snapshot)),
        }
    }
}

} // verus!
