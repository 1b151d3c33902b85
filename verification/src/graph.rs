//! The flight graph, built on first use because its layout samples the terrain.

use crate::dragon::EnderDragonEntity;
use crate::vector::Vec3;
use vstd::prelude::*;

verus! {

/// Runs `action` against the flight graph, building it if this is the first use.
pub fn with_flight_graph<G, R, B: FnOnce() -> G, A: FnOnce(&G) -> R>(
    graph: &mut Option<G>,
    build: B,
    action: A,
) -> (r: R)
    requires
        *old(graph) is None ==> call_requires(build, ()),
        forall|g: &G| call_requires(action, (g,)),
    ensures
        *final(graph) is Some,
        *old(graph) is Some ==> *final(graph) == *old(graph),
        *old(graph) is None ==> call_ensures(build, (), (*final(graph))->0),
        call_ensures(action, (&(*final(graph))->0,), r),
{
    let built = match graph.take() {
        Some(kept) => kept,
        None => build(),
    };
    let r = action(&built);
    *graph = Some(built);
    r
}

impl EnderDragonEntity {
    /// The flight-graph node nearest the dragon: the graph is asked with the
    /// dragon's position and the crystals that are left.
    pub fn find_closest_node<G, B: FnOnce() -> G, N: FnOnce(&G, Vec3, Option<i32>) -> usize>(
        &self,
        graph: &mut Option<G>,
        build: B,
        closest_node: N,
    ) -> (r: usize)
        requires
            *old(graph) is None ==> call_requires(build, ()),
            forall|g: &G| call_requires(closest_node, (g, self.base.position, None::<i32>)),
        ensures
            *final(graph) is Some,
            *old(graph) is Some ==> *final(graph) == *old(graph),
            *old(graph) is None ==> call_ensures(build, (), (*final(graph))->0),
            call_ensures(closest_node, (&(*final(graph))->0, self.base.position, None::<i32>), r),
    {
        let position = self.base.position;
        let crystals = self.alive_crystals();
        let action = |g: &G| -> (node: usize)
            requires
                call_requires(closest_node, (g, position, crystals)),
            ensures
                call_ensures(closest_node, (g, position, crystals), node),
            {
                let node: usize = closest_node(g, position, crystals);
                node
            };
        with_flight_graph(graph, build, action)
    }

    /// The path between two flight-graph nodes, by way of a last node where one
    /// is given.
    pub fn find_path<
        G,
        L,
        P,
        B: FnOnce() -> G,
        S: FnOnce(&G, usize, usize, Option<L>, Option<i32>) -> Option<P>,
    >(
        &self,
        graph: &mut Option<G>,
        build: B,
        start: usize,
        end: usize,
        final_node: Option<L>,
        search: S,
    ) -> (r: Option<P>)
        requires
            *old(graph) is None ==> call_requires(build, ()),
            forall|g: &G| call_requires(search, (g, start, end, final_node, None::<i32>)),
        ensures
            *final(graph) is Some,
            *old(graph) is Some ==> *final(graph) == *old(graph),
            *old(graph) is None ==> call_ensures(build, (), (*final(graph))->0),
            call_ensures(search, (&(*final(graph))->0, start, end, final_node, None::<i32>), r),
    {
        let crystals = self.alive_crystals();
        let action = |g: &G| -> (path: Option<P>)
            requires
                call_requires(search, (g, start, end, final_node, crystals)),
            ensures
                call_ensures(search, (g, start, end, final_node, crystals), path),
            {
                let path: Option<P> = search(g, start, end, final_node, crystals);
                path
            };
        with_flight_graph(graph, build, action)
    }
}

} // verus!
