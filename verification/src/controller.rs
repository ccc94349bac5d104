//! Listener-lifecycle controller: the state transitions its event loop
//! takes on a configuration change and on shutdown.
//!
//! The controller owns the set of bound accept loops, keyed by protocol
//! family, and reacts to two events. The model here records that set, the
//! current configuration, and — to state the lifecycle laws — the
//! connections already handed off to forwarding tasks, which no transition
//! may touch. The caller binds and aborts the real sockets and tasks,
//! driving one transition per event.

use vstd::prelude::*;

use crate::proxy_config::{spec_route, GameMap, Games};

verus! {

/// The signals the controller's event loop consumes.
#[derive(Clone, Copy, PartialEq, Eq, Structural, Debug)]
pub enum ControllerEvents {
    /// The configuration file changed: reload and restart the listeners.
    ConfigUpdate,
    /// Graceful shutdown was requested: retire the listeners and stop.
    Exit,
}

/// The controller's bookkeeping: the configuration lookups run against,
/// the families whose accept loops are live, the identities of connections
/// already handed off to forwarding tasks, and whether the event loop has
/// terminated.
pub struct ControllerModel {
    pub config: GameMap,
    pub active: Vec<Games>,
    pub spliced: Vec<u64>,
    pub stopped: bool,
}

/// The ConfigChanged transition: the new configuration is swapped in
/// atomically and every accept loop is retired (the caller then starts a
/// fresh listener per family it manages to bind); connections already
/// handed off are untouched.
pub open spec fn is_config_change(pre: ControllerModel, post: ControllerModel, c: GameMap) -> bool {
    &&& post.config == c
    &&& post.active@ == Seq::<Games>::empty()
    &&& post.spliced@ == pre.spliced@
    &&& post.stopped == pre.stopped
}

/// The Shutdown transition: every accept loop is retired and the event
/// loop ends; connections already handed off are not forcibly closed.
pub open spec fn is_shutdown(pre: ControllerModel, post: ControllerModel) -> bool {
    &&& post.config == pre.config
    &&& post.active@ == Seq::<Games>::empty()
    &&& post.spliced@ == pre.spliced@
    &&& post.stopped
}

impl ControllerModel {
    /// A freshly started controller: nothing bound, nothing handed off.
    pub fn new(config: GameMap) -> (m: ControllerModel)
        ensures
            m.config == config,
            m.active@ == Seq::<Games>::empty(),
            m.spliced@ == Seq::<u64>::empty(),
            !m.stopped,
    {
        let m = ControllerModel { config, active: Vec::new(), spliced: Vec::new(), stopped: false };
        proof {
            assert(m.active@ =~= Seq::<Games>::empty());
            assert(m.spliced@ =~= Seq::<u64>::empty());
        }
        m
    }

    /// Record that one accepted connection was handed off to a forwarding
    /// task (fire-and-forget): the controller never reaches into it again.
    pub fn accept_connection(&mut self, id: u64)
        ensures
            final(self).spliced@ == old(self).spliced@.push(id),
            final(self).config == old(self).config,
            final(self).active@ == old(self).active@,
            final(self).stopped == old(self).stopped,
    {
        self.spliced.push(id);
    }

    /// Record that a listener was bound and its accept loop spawned for a
    /// family; a family already running keeps its existing loop.
    pub fn start_listener(&mut self, game: Games)
        ensures
            final(self).config == old(self).config,
            final(self).spliced@ == old(self).spliced@,
            final(self).stopped == old(self).stopped,
            (if old(self).active@.contains(game) {
                final(self).active@ == old(self).active@
            } else {
                final(self).active@ == old(self).active@.push(game)
            }),
    {
        let n = self.active.len();
        let mut i: usize = 0;
        while i < n
            invariant
                n == self.active@.len(),
                i <= n,
                *self == *old(self),
                forall|j: int| 0 <= j < i ==> self.active@[j] != game,
            decreases n - i,
        {
            if self.active[i] == game {
                return ;
            }
            i = i + 1;
        }
        self.active.push(game);
    }

    /// Retire every accept loop: each is cancelled and awaited by the
    /// caller before its family counts as stopped, so no two sockets ever
    /// overlap on one port.
    pub fn stop_all_listeners(&mut self)
        ensures
            final(self).config == old(self).config,
            final(self).spliced@ == old(self).spliced@,
            final(self).stopped == old(self).stopped,
            final(self).active@ == Seq::<Games>::empty(),
    {
        self.active = Vec::new();
        proof {
            assert(self.active@ =~= Seq::<Games>::empty());
        }
    }

    /// The ConfigChanged reaction: swap the freshly loaded configuration in and
    /// retire every accept loop, leaving handed-off connections untouched.
    /// The caller reloads the file itself and treats a load failure as
    /// fatal before ever calling this.
    pub fn apply_config_change(&mut self, new_config: GameMap)
        ensures
            is_config_change(*old(self), *final(self), new_config),
            forall|g: Games, h: Seq<char>|
                spec_route(final(self).config, g, h) == spec_route(new_config, g, h),
    {
        self.config = new_config;
        self.stop_all_listeners();
    }

    /// The Shutdown reaction: retire every accept loop and end the event loop;
    /// handed-off connections are left to finish on their own.
    pub fn apply_shutdown(&mut self)
        ensures
            is_shutdown(*old(self), *final(self)),
    {
        self.stop_all_listeners();
        self.stopped = true;
    }
}

/// Hot-reload law: a configuration change never drops a connection that
/// was already handed off, and every lookup made after the swap routes
/// against the new configuration.
pub proof fn lemma_hot_reload(
    pre: ControllerModel,
    post: ControllerModel,
    v2: GameMap,
    g: Games,
    h: Seq<char>,
)
    requires
        is_config_change(pre, post, v2),
    ensures
        post.spliced@ == pre.spliced@,
        spec_route(post.config, g, h) == spec_route(v2, g, h),
{
}

/// Routing depends only on the configuration's content: two configurations
/// that denote the same map route every host identically.
pub proof fn lemma_route_depends_on_view(c1: GameMap, c2: GameMap, g: Games, h: Seq<char>)
    requires
        c1@ == c2@,
    ensures
        spec_route(c1, g, h) == spec_route(c2, g, h),
{
}

/// Idempotence law: reloading a configuration with unchanged content drops
/// no handed-off connection and leaves every routing result as it was.
pub proof fn lemma_reload_unchanged(
    pre: ControllerModel,
    post: ControllerModel,
    v: GameMap,
    g: Games,
    h: Seq<char>,
)
    requires
        is_config_change(pre, post, v),
        v@ == pre.config@,
    ensures
        post.spliced@ == pre.spliced@,
        spec_route(post.config, g, h) == spec_route(pre.config, g, h),
{
    lemma_route_depends_on_view(v, pre.config, g, h);
}

} // verus!
