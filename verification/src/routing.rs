//! Building the runtime graph from a validated configuration.
//!
//! The router turns the declarative routes into one mixer per output.
//! Each output that at least one route targets gets a mixer whose sources
//! are the routes targeting it, in route order, de-duplicated by input id
//! (the first route for an input wins). A source's priority flag is
//! derived from its route: a positive duck amount marks the source as one
//! that ducks the others.

use vstd::prelude::*;
use crate::config::{Config, ConfigError, spec_valid, validation_error_matches};
use crate::config::Route;
use crate::mixer::{Mixer, Source};
use crate::text::str_eq;
use crossbeam_channel::Sender;

verus! {

/// Route `r` lists `oid` among its target outputs.
pub open spec fn route_targets(r: Route, oid: Seq<char>) -> bool {
    exists|k: int| 0 <= k < r.outputs@.len() && #[trigger] r.outputs@[k]@ == oid
}

/// The duck amount a route gives its source: the absolute value of the
/// route's duck field (saturated at the widest i32 for the one value
/// whose negation does not fit).
pub open spec fn route_duck_amount(r: Route) -> int {
    if r.duck_mb == i32::MIN {
        i32::MAX as int
    } else if r.duck_mb < 0 {
        -(r.duck_mb as int)
    } else {
        r.duck_mb as int
    }
}

/// A freshly built source carries exactly its route's parameters: the
/// route's input and gain, priority derived from a positive duck amount,
/// and the duck amount's magnitude.
pub open spec fn source_matches_route(s: Source, r: Route) -> bool {
    &&& s.input_id@ == r.input@
    &&& s.gain_mb == r.gain_mb
    &&& s.duck_priority == (r.duck_mb > 0)
    &&& s.duck_mb as int == route_duck_amount(r)
    &&& s.receiver is None
    &&& !s.fresh
    &&& !s.pending
    &&& !s.is_active
    &&& s.buffer@.len() == 0
}

/// The routes that become sources of the mixer for output `oid`: those
/// targeting `oid`, in order, keeping only the first route per input id.
pub open spec fn sources_for(routes: Seq<Route>, oid: Seq<char>) -> Seq<Route>
    decreases routes.len(),
{
    if routes.len() == 0 {
        Seq::empty()
    } else {
        let prefix = sources_for(routes.drop_last(), oid);
        let r = routes.last();
        if route_targets(r, oid) && !(exists|j: int|
            0 <= j < prefix.len() && (#[trigger] prefix[j]).input@ == r.input@) {
            prefix.push(r)
        } else {
            prefix
        }
    }
}

/// Every selected route is one of the given routes and targets `oid`.
pub proof fn lemma_sources_for_members(routes: Seq<Route>, oid: Seq<char>)
    ensures
        forall|j: int|
            0 <= j < sources_for(routes, oid).len() ==> exists|t: int|
                0 <= t < routes.len() && #[trigger] sources_for(routes, oid)[j] == routes[t]
                    && route_targets(routes[t], oid),
    decreases routes.len(),
{
    if routes.len() > 0 {
        lemma_sources_for_members(routes.drop_last(), oid);
        let prefix = sources_for(routes.drop_last(), oid);
        assert forall|j: int| 0 <= j < sources_for(routes, oid).len() implies exists|t: int|
            0 <= t < routes.len() && #[trigger] sources_for(routes, oid)[j] == routes[t]
                && route_targets(routes[t], oid) by {
            if j < prefix.len() {
                let t = choose|t: int|
                    0 <= t < routes.drop_last().len() && #[trigger] prefix[j] == routes.drop_last()[t]
                        && route_targets(routes.drop_last()[t], oid);
                assert(routes.drop_last()[t] == routes[t]);
                assert(sources_for(routes, oid)[j] == routes[t] && route_targets(routes[t], oid));
            } else {
                let t = routes.len() - 1;
                assert(sources_for(routes, oid)[j] == routes[t] && route_targets(routes[t], oid));
            }
        }
    }
}

/// An output is routed when some route targets it.
pub open spec fn output_has_route(routes: Seq<Route>, oid: Seq<char>) -> bool {
    exists|t: int| 0 <= t < routes.len() && route_targets(#[trigger] routes[t], oid)
}

/// The mixer for a routed output has at least one source, and only
/// routed outputs have sources.
pub proof fn lemma_sources_for_nonempty(routes: Seq<Route>, oid: Seq<char>)
    ensures
        sources_for(routes, oid).len() > 0 <==> output_has_route(routes, oid),
    decreases routes.len(),
{
    if routes.len() > 0 {
        lemma_sources_for_nonempty(routes.drop_last(), oid);
        let prefix = sources_for(routes.drop_last(), oid);
        let r = routes.last();
        if route_targets(r, oid) {
            assert(output_has_route(routes, oid));
            assert(sources_for(routes, oid).len() > 0);
        } else {
            assert(sources_for(routes, oid) == prefix);
            if prefix.len() > 0 {
                let t = choose|t: int|
                    0 <= t < routes.drop_last().len() && route_targets(
                        #[trigger] routes.drop_last()[t],
                        oid,
                    );
                assert(routes[t] == routes.drop_last()[t]);
                assert(output_has_route(routes, oid));
            } else {
                if output_has_route(routes, oid) {
                    let t = choose|t: int|
                        0 <= t < routes.len() && route_targets(#[trigger] routes[t], oid);
                    assert(t < routes.len() - 1);
                    assert(routes.drop_last()[t] == routes[t]);
                    assert(output_has_route(routes.drop_last(), oid));
                    assert(false);
                }
            }
        }
    }
}

/// The mixer of one output, keyed by the output's id.
pub struct OutputMixer {
    pub output_id: String,
    pub mixer: Mixer,
}

/// A mixer's sources are exactly the selected routes for its output.
pub open spec fn mixer_matches(m: Mixer, routes: Seq<Route>, oid: Seq<char>) -> bool {
    &&& m.sources@.len() == sources_for(routes, oid).len()
    &&& forall|j: int|
        0 <= j < m.sources@.len() ==> source_matches_route(
            #[trigger] m.sources@[j],
            sources_for(routes, oid)[j],
        )
}

/// The ids of the outputs that have at least one route, in output order.
pub open spec fn routed_output_ids(outputs: Seq<crate::config::Output>, routes: Seq<Route>) -> Seq<
    Seq<char>,
>
    decreases outputs.len(),
{
    if outputs.len() == 0 {
        Seq::empty()
    } else {
        let prefix = routed_output_ids(outputs.drop_last(), routes);
        if output_has_route(routes, outputs.last().id@) {
            prefix.push(outputs.last().id@)
        } else {
            prefix
        }
    }
}

/// The graph a validated configuration builds: one mixer per routed
/// output, in output order, each with exactly its selected sources.
pub open spec fn router_matches(rt: Router, c: Config) -> bool {
    &&& rt.output_mixers@.len() == routed_output_ids(c.outputs@, c.routes@).len()
    &&& forall|j: int|
        0 <= j < rt.output_mixers@.len() ==> (#[trigger] rt.output_mixers@[j]).output_id@
            == routed_output_ids(c.outputs@, c.routes@)[j]
    &&& forall|j: int|
        0 <= j < rt.output_mixers@.len() ==> mixer_matches(
            (#[trigger] rt.output_mixers@[j]).mixer,
            c.routes@,
            rt.output_mixers@[j].output_id@,
        )
}

/// The input ids of every source across the graph, in graph order: the
/// order in which `Router::start` hands out senders.
pub open spec fn flat_input_ids(oms: Seq<OutputMixer>) -> Seq<Seq<char>>
    decreases oms.len(),
{
    if oms.len() == 0 {
        Seq::empty()
    } else {
        flat_input_ids(oms.drop_last()) + oms.last().mixer.sources@.map_values(
            |s: Source| s.input_id@,
        )
    }
}

/// Owns the mixers of every routed output.
pub struct Router {
    pub output_mixers: Vec<OutputMixer>,
}

/// True when some string of the list reads `s`.
fn string_list_contains(list: &Vec<String>, s: &str) -> (r: bool)
    ensures
        r == exists|k: int| 0 <= k < list@.len() && #[trigger] list@[k]@ == s@,
{
    let n = list.len();
    let mut k: usize = 0;
    while k < n
        invariant
            0 <= k <= n,
            n == list@.len(),
            forall|j: int| 0 <= j < k ==> #[trigger] list@[j]@ != s@,
        decreases n - k,
    {
        if str_eq(list[k].as_str(), s) {
            return true;
        }
        k = k + 1;
    }
    false
}

/// True when some already-built source pulls from this input.
fn sources_have_input(ss: &Vec<Source>, id: &str) -> (r: bool)
    ensures
        r == exists|k: int| 0 <= k < ss@.len() && #[trigger] ss@[k].input_id@ == id@,
{
    let n = ss.len();
    let mut k: usize = 0;
    while k < n
        invariant
            0 <= k <= n,
            n == ss@.len(),
            forall|j: int| 0 <= j < k ==> #[trigger] ss@[j].input_id@ != id@,
        decreases n - k,
    {
        if str_eq(ss[k].input_id.as_str(), id) {
            return true;
        }
        k = k + 1;
    }
    false
}

impl Router {
    /// Validates the configuration and builds the graph. Accepts exactly
    /// the valid configurations; on acceptance the graph is the one
    /// `router_matches` describes, so every source pulls from a declared
    /// input and every mixer belongs to a declared output.
    pub fn new(config: &Config) -> (r: Result<Router, ConfigError>)
        ensures
            r is Ok <==> spec_valid(*config),
            match r {
                Ok(rt) => router_matches(rt, *config),
                Err(e) => validation_error_matches(*config, e),
            },
    {
        match config.validate() {
            Ok(_) => (),
            Err(e) => {
                return Err(e);
            },
        }
        let mut oms: Vec<OutputMixer> = Vec::new();
        let n_out = config.outputs.len();
        let mut i: usize = 0;
        #[verifier::loop_isolation(false)]
        while i < n_out
            invariant
                0 <= i <= n_out,
                oms@.len() == routed_output_ids(config.outputs@.take(i as int), config.routes@).len(),
                forall|j: int|
                    0 <= j < oms@.len() ==> (#[trigger] oms@[j]).output_id@ == routed_output_ids(
                        config.outputs@.take(i as int),
                        config.routes@,
                    )[j],
                forall|j: int|
                    0 <= j < oms@.len() ==> mixer_matches(
                        (#[trigger] oms@[j]).mixer,
                        config.routes@,
                        oms@[j].output_id@,
                    ),
            decreases n_out - i,
        {
            let ghost prev_ids = routed_output_ids(config.outputs@.take(i as int), config.routes@);
            proof {
                assert(config.outputs@.take(i as int + 1).drop_last() =~= config.outputs@.take(
                    i as int,
                ));
                assert(config.outputs@.take(i as int + 1).last() == config.outputs@[i as int]);
            }
            let mut sources: Vec<Source> = Vec::new();
            let n_r = config.routes.len();
            let mut t: usize = 0;
            #[verifier::loop_isolation(false)]
            while t < n_r
                invariant
                    0 <= t <= n_r,
                    n_r == config.routes@.len(),
                    0 <= i < n_out,
                    sources@.len() == sources_for(
                        config.routes@.take(t as int),
                        config.outputs@[i as int].id@,
                    ).len(),
                    forall|j: int|
                        0 <= j < sources@.len() ==> source_matches_route(
                            #[trigger] sources@[j],
                            sources_for(
                                config.routes@.take(t as int),
                                config.outputs@[i as int].id@,
                            )[j],
                        ),
                decreases n_r - t,
            {
                let ghost oid = config.outputs@[i as int].id@;
                let ghost prev_sel = sources_for(config.routes@.take(t as int), oid);
                proof {
                    assert(config.routes@.take(t as int + 1).drop_last() =~= config.routes@.take(
                        t as int,
                    ));
                    assert(config.routes@.take(t as int + 1).last() == config.routes@[t as int]);
                }
                if string_list_contains(&config.routes[t].outputs, config.outputs[i].id.as_str()) {
                    proof {
                        assert(route_targets(config.routes@[t as int], oid));
                    }
                    if !sources_have_input(&sources, config.routes[t].input.as_str()) {
                        proof {
                            assert forall|j: int| 0 <= j < prev_sel.len() implies (
                            #[trigger] prev_sel[j]).input@ != config.routes@[t as int].input@ by {
                                assert(sources@[j].input_id@ == prev_sel[j].input@);
                            }
                        }
                        let duck_raw = config.routes[t].duck_mb;
                        let duck_amount: i32 = if duck_raw == i32::MIN {
                            i32::MAX
                        } else if duck_raw < 0 {
                            -duck_raw
                        } else {
                            duck_raw
                        };
                        let src = Source::new(
                            config.routes[t].input.clone(),
                            config.routes[t].gain_mb,
                            duck_raw > 0,
                            duck_amount,
                        );
                        sources.push(src);
                    } else {
                        proof {
                            let k = choose|k: int|
                                0 <= k < sources@.len() && #[trigger] sources@[k].input_id@
                                    == config.routes@[t as int].input@;
                            assert(prev_sel[k].input@ == config.routes@[t as int].input@);
                            assert(sources_for(config.routes@.take(t as int + 1), oid) =~= prev_sel);
                        }
                    }
                } else {
                    proof {
                        assert(!route_targets(config.routes@[t as int], oid));
                        assert(sources_for(config.routes@.take(t as int + 1), oid) =~= prev_sel);
                    }
                }
                t = t + 1;
            }
            proof {
                assert(config.routes@.take(n_r as int) =~= config.routes@);
            }
            if sources.len() > 0 {
                proof {
                    lemma_sources_for_nonempty(config.routes@, config.outputs@[i as int].id@);
                }
                let om = OutputMixer {
                    output_id: config.outputs[i].id.clone(),
                    mixer: Mixer::new(sources),
                };
                oms.push(om);
            } else {
                proof {
                    lemma_sources_for_nonempty(config.routes@, config.outputs@[i as int].id@);
                    assert(routed_output_ids(config.outputs@.take(i as int + 1), config.routes@)
                        =~= prev_ids);
                }
            }
            i = i + 1;
        }
        proof {
            assert(config.outputs@.take(n_out as int) =~= config.outputs@);
        }
        Ok(Router { output_mixers: oms })
    }

    /// The mixer serving the given output id, if that output is routed.
    pub fn mixer_for(&self, id: &str) -> (r: Option<&Mixer>)
        ensures
            (r is Some) == exists|j: int|
                0 <= j < self.output_mixers@.len() && (#[trigger] self.output_mixers@[j]).output_id@
                    == id@,
            match r {
                Some(m) => exists|j: int|
                    0 <= j < self.output_mixers@.len() && (#[trigger] self.output_mixers@[j]).output_id@
                        == id@ && *m == self.output_mixers@[j].mixer,
                None => true,
            },
    {
        let n = self.output_mixers.len();
        let mut j: usize = 0;
        while j < n
            invariant
                0 <= j <= n,
                n == self.output_mixers@.len(),
                forall|k: int| 0 <= k < j ==> (#[trigger] self.output_mixers@[k]).output_id@ != id@,
            decreases n - j,
        {
            if str_eq(self.output_mixers[j].output_id.as_str(), id) {
                return Some(&self.output_mixers[j].mixer);
            }
            j = j + 1;
        }
        None
    }

    /// Starts every mixer and hands back, across all outputs, the input
    /// id and frame sender of every source, for the input drivers to
    /// produce into: one sender per source, in graph order, labelled
    /// with that source's input id.
    pub fn start(&mut self) -> (txs: Vec<(String, Sender<Vec<i16>>)>)
        ensures
            final(self).output_mixers@.len() == old(self).output_mixers@.len(),
            forall|j: int|
                0 <= j < final(self).output_mixers@.len() ==> (#[trigger] final(self).output_mixers@[j]).output_id@ == old(self).output_mixers@[j].output_id@,
            forall|j: int, k: int|
                0 <= j < final(self).output_mixers@.len() && 0 <= k < final(self).output_mixers@[j].mixer.sources@.len() ==> (#[trigger] final(self).output_mixers@[j].mixer.sources@[k]).receiver is Some,
            txs@.len() == flat_input_ids(old(self).output_mixers@).len(),
            forall|k: int|
                0 <= k < txs@.len() ==> (#[trigger] txs@[k]).0@ == flat_input_ids(
                    old(self).output_mixers@,
                )[k],
    {
        let mut txs: Vec<(String, Sender<Vec<i16>>)> = Vec::new();
        let n = self.output_mixers.len();
        let mut j: usize = 0;
        #[verifier::loop_isolation(false)]
        while j < n
            invariant
                0 <= j <= n,
                self.output_mixers@.len() == n,
                forall|k: int|
                    0 <= k < n ==> (#[trigger] self.output_mixers@[k]).output_id@ == old(self).output_mixers@[k].output_id@,
                forall|k: int|
                    j <= k < n ==> #[trigger] self.output_mixers@[k] == old(self).output_mixers@[k],
                forall|j2: int, k: int|
                    0 <= j2 < j && 0 <= k < self.output_mixers@[j2].mixer.sources@.len() ==> (
                    #[trigger] self.output_mixers@[j2].mixer.sources@[k]).receiver is Some,
                forall|j2: int|
                    0 <= j2 < n ==> (#[trigger] self.output_mixers@[j2]).mixer.sources@.len() == old(self).output_mixers@[j2].mixer.sources@.len(),
                txs@.len() == flat_input_ids(old(self).output_mixers@.take(j as int)).len(),
                forall|k: int|
                    0 <= k < txs@.len() ==> (#[trigger] txs@[k]).0@ == flat_input_ids(
                        old(self).output_mixers@.take(j as int),
                    )[k],
            decreases n - j,
        {
            proof {
                assert(old(self).output_mixers@.take(j as int + 1).drop_last() =~= old(self).output_mixers@.take(j as int));
                assert(old(self).output_mixers@.take(j as int + 1).last() == old(self).output_mixers@[j as int]);
            }
            let mut mixer_txs = self.output_mixers[j].mixer.start();
            txs.append(&mut mixer_txs);
            j = j + 1;
        }
        proof {
            assert(old(self).output_mixers@.take(n as int) =~= old(self).output_mixers@);
        }
        txs
    }

    /// Stops every mixer; producers observe the closed queues and exit.
    pub fn stop(&mut self)
        ensures
            final(self).output_mixers@.len() == old(self).output_mixers@.len(),
            forall|j: int, k: int|
                0 <= j < final(self).output_mixers@.len() && 0 <= k < final(self).output_mixers@[j].mixer.sources@.len() ==> (#[trigger] final(self).output_mixers@[j].mixer.sources@[k]).receiver is None,
    {
        let n = self.output_mixers.len();
        let mut j: usize = 0;
        #[verifier::loop_isolation(false)]
        while j < n
            invariant
                0 <= j <= n,
                self.output_mixers@.len() == n,
                forall|j2: int, k: int|
                    0 <= j2 < j && 0 <= k < self.output_mixers@[j2].mixer.sources@.len() ==> (
                    #[trigger] self.output_mixers@[j2].mixer.sources@[k]).receiver is None,
            decreases n - j,
        {
            self.output_mixers[j].mixer.stop();
            j = j + 1;
        }
    }
}

/// A route's input that is the first to target an output feeds that
/// output's mixer: the mixer holds a source carrying exactly the route's
/// gain, priority and duck amount. Applied to a route listing several
/// outputs, this says each of their mixers receives the same source
/// configuration, independently.
pub proof fn lemma_route_fanout(rt: Router, c: Config, t: int, j: int)
    requires
        router_matches(rt, c),
        0 <= t < c.routes@.len(),
        0 <= j < rt.output_mixers@.len(),
        route_targets(c.routes@[t], rt.output_mixers@[j].output_id@),
        forall|t2: int|
            0 <= t2 < t ==> ((#[trigger] c.routes@[t2]).input@ == c.routes@[t].input@
                ==> !route_targets(c.routes@[t2], rt.output_mixers@[j].output_id@)),
    ensures
        exists|k: int|
            0 <= k < rt.output_mixers@[j].mixer.sources@.len() && source_matches_route(
                #[trigger] rt.output_mixers@[j].mixer.sources@[k],
                c.routes@[t],
            ),
{
    let oid = rt.output_mixers@[j].output_id@;
    let sel = sources_for(c.routes@, oid);
    lemma_sources_for_selects(c.routes@, oid, t);
    let k = choose|k: int| 0 <= k < sel.len() && #[trigger] sel[k] == c.routes@[t];
    assert(source_matches_route(rt.output_mixers@[j].mixer.sources@[k], sel[k]));
}

/// A route that targets an output, none of whose earlier same-input
/// routes target it, is among the selected routes of that output.
proof fn lemma_sources_for_selects(routes: Seq<Route>, oid: Seq<char>, t: int)
    requires
        0 <= t < routes.len(),
        route_targets(routes[t], oid),
        forall|t2: int|
            0 <= t2 < t ==> ((#[trigger] routes[t2]).input@ == routes[t].input@ ==> !route_targets(
                routes[t2],
                oid,
            )),
    ensures
        exists|k: int|
            0 <= k < sources_for(routes, oid).len() && #[trigger] sources_for(routes, oid)[k]
                == routes[t],
    decreases routes.len(),
{
    let prefix = sources_for(routes.drop_last(), oid);
    if t == routes.len() - 1 {
        if exists|j: int| 0 <= j < prefix.len() && (#[trigger] prefix[j]).input@
            == routes[t].input@ {
            let j = choose|j: int|
                0 <= j < prefix.len() && (#[trigger] prefix[j]).input@ == routes[t].input@;
            lemma_sources_for_members(routes.drop_last(), oid);
            let t2 = choose|t2: int|
                0 <= t2 < routes.drop_last().len() && #[trigger] prefix[j] == routes.drop_last()[t2]
                    && route_targets(routes.drop_last()[t2], oid);
            assert(routes.drop_last()[t2] == routes[t2]);
            assert(route_targets(routes[t2], oid) && routes[t2].input@ == routes[t].input@);
            assert(false);
        }
        let k = prefix.len() as int;
        assert(sources_for(routes, oid)[k] == routes[t]);
    } else {
        assert(routes.drop_last()[t] == routes[t]);
        assert forall|t2: int| 0 <= t2 < t implies ((#[trigger] routes.drop_last()[t2]).input@
            == routes.drop_last()[t].input@ ==> !route_targets(routes.drop_last()[t2], oid)) by {
            assert(routes.drop_last()[t2] == routes[t2]);
        }
        lemma_sources_for_selects(routes.drop_last(), oid, t);
        let k = choose|k: int|
            0 <= k < prefix.len() && #[trigger] prefix[k] == routes.drop_last()[t];
        if route_targets(routes.last(), oid) && !(exists|j: int|
            0 <= j < prefix.len() && (#[trigger] prefix[j]).input@ == routes.last().input@) {
            assert(sources_for(routes, oid)[k] == routes[t]);
        } else {
            assert(sources_for(routes, oid)[k] == routes[t]);
        }
    }
}

/// Every id of the routed-output list is a declared output's id.
proof fn lemma_routed_ids_members(outputs: Seq<crate::config::Output>, routes: Seq<Route>)
    ensures
        forall|j: int|
            0 <= j < routed_output_ids(outputs, routes).len() ==> exists|i: int|
                0 <= i < outputs.len() && #[trigger] routed_output_ids(outputs, routes)[j]
                    == outputs[i].id@,
    decreases outputs.len(),
{
    if outputs.len() > 0 {
        lemma_routed_ids_members(outputs.drop_last(), routes);
        let prefix = routed_output_ids(outputs.drop_last(), routes);
        assert forall|j: int| 0 <= j < routed_output_ids(outputs, routes).len() implies exists|i: int|
            0 <= i < outputs.len() && #[trigger] routed_output_ids(outputs, routes)[j]
                == outputs[i].id@ by {
            if j < prefix.len() {
                let i = choose|i: int|
                    0 <= i < outputs.drop_last().len() && #[trigger] prefix[j]
                        == outputs.drop_last()[i].id@;
                assert(outputs.drop_last()[i] == outputs[i]);
                assert(routed_output_ids(outputs, routes)[j] == outputs[i].id@);
            } else {
                let i = outputs.len() - 1;
                assert(routed_output_ids(outputs, routes)[j] == outputs[i].id@);
            }
        }
    }
}

/// In the graph built from a configuration that validation accepted,
/// every mixer belongs to a declared output and every source pulls from
/// a declared input: the graph references only loaded ids.
pub proof fn lemma_graph_references(rt: Router, c: Config)
    requires
        router_matches(rt, c),
        spec_valid(c),
    ensures
        forall|j: int|
            0 <= j < rt.output_mixers@.len() ==> crate::config::has_output_id(
                c,
                (#[trigger] rt.output_mixers@[j]).output_id@,
            ),
        forall|j: int, k: int|
            0 <= j < rt.output_mixers@.len() && 0 <= k
                < rt.output_mixers@[j].mixer.sources@.len() ==> crate::config::has_input_id(
                c,
                (#[trigger] rt.output_mixers@[j].mixer.sources@[k]).input_id@,
            ),
{
    lemma_routed_ids_members(c.outputs@, c.routes@);
    assert forall|j: int| 0 <= j < rt.output_mixers@.len() implies crate::config::has_output_id(
        c,
        (#[trigger] rt.output_mixers@[j]).output_id@,
    ) by {
        let ids = routed_output_ids(c.outputs@, c.routes@);
        assert(rt.output_mixers@[j].output_id@ == ids[j]);
        let i = choose|i: int| 0 <= i < c.outputs@.len() && #[trigger] ids[j] == c.outputs@[i].id@;
        assert(c.outputs@[i].id@ == ids[j]);
    }
    assert forall|j: int, k: int|
        0 <= j < rt.output_mixers@.len() && 0 <= k
            < rt.output_mixers@[j].mixer.sources@.len() implies crate::config::has_input_id(
        c,
        (#[trigger] rt.output_mixers@[j].mixer.sources@[k]).input_id@,
    ) by {
        let oid = rt.output_mixers@[j].output_id@;
        let sel = sources_for(c.routes@, oid);
        lemma_sources_for_members(c.routes@, oid);
        assert(source_matches_route(rt.output_mixers@[j].mixer.sources@[k], sel[k]));
        let t = choose|t: int|
            0 <= t < c.routes@.len() && #[trigger] sel[k] == c.routes@[t] && route_targets(
                c.routes@[t],
                oid,
            );
        assert(crate::config::route_ok(c, c.routes@[t]));
        assert(crate::config::has_input_id(c, c.routes@[t].input@));
    }
}

} // verus!
