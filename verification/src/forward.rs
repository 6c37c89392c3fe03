//! The set of running port forwards, and the `ssh` command lines that start
//! them.
use std::collections::HashMap;
use vstd::prelude::*;
use vstd::std_specs::hash::spec_keys_iter;
use vstd::std_specs::iter::IteratorSpec;

use crate::text::{decimal, push_decimal, push_str};

verus! {

broadcast use vstd::std_specs::hash::group_hash_axioms;

/// An active SSH port forward.
#[derive(Debug, Clone)]
pub struct ActiveForward {
    pub remote_port: u16,
    pub local_port: u16,
    pub label: Option<String>,
}

/// All active port forwards, keyed by remote port.
pub struct ForwardManager {
    active: HashMap<u16, ActiveForward>,
}

/// What a sequence holds after a push.
pub proof fn lemma_push_contains(s: Seq<u16>, x: u16, y: u16)
    ensures
        s.push(x).contains(y) <==> (s.contains(y) || y == x),
{
    if s.push(x).contains(y) {
        let k = choose|k: int| 0 <= k < s.push(x).len() && s.push(x)[k] == y;
        if k < s.len() {
            assert(s[k] == y);
        }
    }
    if s.contains(y) {
        let k = choose|k: int| 0 <= k < s.len() && s[k] == y;
        assert(s.push(x)[k] == y);
    }
    if y == x {
        assert(s.push(x)[s.len() as int] == y);
    }
}

/// A port is forwarded from when its forward starts until it is stopped;
/// stopping it leaves the other forwards as they were.
pub proof fn law_start_then_stop(m: Map<u16, ActiveForward>, f: ActiveForward, q: u16)
    ensures
        m.insert(f.remote_port, f).contains_key(f.remote_port),
        m.insert(f.remote_port, f)[f.remote_port] == f,
        !m.insert(f.remote_port, f).remove(f.remote_port).contains_key(f.remote_port),
        q != f.remote_port ==> (m.insert(f.remote_port, f).remove(f.remote_port).contains_key(q)
            <==> m.contains_key(q)),
{
}

impl View for ForwardManager {
    type V = Map<u16, ActiveForward>;

    closed spec fn view(&self) -> Map<u16, ActiveForward> {
        self.active@
    }
}

impl ForwardManager {
    /// No forward is active.
    pub fn new() -> (m: Self)
        ensures
            m@ == Map::<u16, ActiveForward>::empty(),
    {
        ForwardManager { active: HashMap::new() }
    }

    /// Returns true if `remote_port` is already being forwarded.
    pub fn is_active(&self, remote_port: u16) -> (b: bool)
        ensures
            b == self@.contains_key(remote_port),
    {
        self.active.contains_key(&remote_port)
    }

    /// The remote ports currently forwarded, each once, in no particular order.
    pub fn active_remote_ports(&self) -> (ports: Vec<u16>)
        ensures
            ports@.to_set() == self@.dom(),
            ports@.no_duplicates(),
            ports@.len() == self@.dom().len(),
    {
        let mut ports: Vec<u16> = Vec::new();
        let ghost keys = spec_keys_iter(&self.active).remaining();
        for k in it: self.active.keys()
            invariant
                it.seq() == keys,
                ports@ == keys.take(it.index()).map_values(|r: &u16| *r),
        {
            proof {
                assert(keys.take(it.index() + 1) =~= keys.take(it.index()).push(k));
            }
            ports.push(*k);
        }
        proof {
            assert(ports@ =~= keys.map_values(|r: &u16| *r));
            assert(keys.unref() =~= keys.map_values(|r: &u16| *r));
        }
        ports
    }

    /// Records a forward of `remote_port` to `local_port` that has just started.
    pub fn start_forward(&mut self, remote_port: u16, local_port: u16, label: Option<String>)
        ensures
            final(self)@ == old(self)@.insert(
                remote_port,
                ActiveForward { remote_port, local_port, label },
            ),
    {
        let fwd = ActiveForward { remote_port, local_port, label };
        self.active.insert(remote_port, fwd);
    }

    /// Removes the forward of `remote_port`, if one is active, and hands it
    /// back so that its process can be stopped.
    pub fn stop_forward(&mut self, remote_port: u16) -> (r: Option<ActiveForward>)
        ensures
            final(self)@ == old(self)@.remove(remote_port),
            r == (if old(self)@.contains_key(remote_port) {
                Some(old(self)@[remote_port])
            } else {
                None
            }),
    {
        self.active.remove(&remote_port)
    }

    /// Removes every active forward and hands each back, with its remote
    /// port, so that its process can be stopped; each port comes once.
    pub fn teardown_all(&mut self) -> (removed: Vec<(u16, ActiveForward)>)
        ensures
            final(self)@ == Map::<u16, ActiveForward>::empty(),
            removed@.map_values(|x: (u16, ActiveForward)| x.0).to_set() == old(self)@.dom(),
            removed@.map_values(|x: (u16, ActiveForward)| x.0).no_duplicates(),
            forall|i: int|
                0 <= i < removed@.len() ==> old(self)@[(#[trigger] removed@[i]).0] == removed@[i].1,
    {
        let ports = self.active_remote_ports();
        let mut removed: Vec<(u16, ActiveForward)> = Vec::new();
        let mut i: usize = 0;
        while i < ports.len()
            invariant
                i <= ports@.len(),
                ports@.to_set() == old(self)@.dom(),
                ports@.no_duplicates(),
                removed@.map_values(|x: (u16, ActiveForward)| x.0) == ports@.take(i as int),
                forall|k: int|
                    0 <= k < removed@.len() ==> old(self)@[(#[trigger] removed@[k]).0]
                        == removed@[k].1,
                forall|p: u16|
                    #[trigger] self@.contains_key(p) <==> (old(self)@.contains_key(p)
                        && !ports@.take(i as int).contains(p)),
                forall|p: u16| #[trigger] self@.contains_key(p) ==> self@[p] == old(self)@[p],
            decreases ports@.len() - i,
        {
            let p = ports[i];
            proof {
                assert(ports@.to_set().contains(p));
                assert(!ports@.take(i as int).contains(p)) by {
                    if ports@.take(i as int).contains(p) {
                        let k = choose|k: int| 0 <= k < i && ports@.take(i as int)[k] == p;
                        assert(ports@[k] == ports@[i as int]);
                    }
                }
            }
            let fwd = self.stop_forward(p);
            let ghost before = removed@;
            match fwd {
                Some(f) => {
                    removed.push((p, f));
                },
                None => {},
            }
            proof {
                assert(ports@.take(i + 1) =~= ports@.take(i as int).push(p));
                assert(removed@.map_values(|x: (u16, ActiveForward)| x.0) =~= before.map_values(
                    |x: (u16, ActiveForward)| x.0,
                ).push(p));
                assert forall|q: u16| #[trigger] ports@.take(i + 1).contains(q) <==> (ports@.take(
                    i as int,
                ).contains(q) || q == p) by {
                    lemma_push_contains(ports@.take(i as int), p, q);
                }
            }
            i = i + 1;
        }
        proof {
            assert(ports@.take(i as int) =~= ports@);
            assert forall|p: u16| !self@.contains_key(p) by {
                if old(self)@.contains_key(p) {
                    assert(ports@.to_set().contains(p));
                }
            }
            assert(self@ =~= Map::<u16, ActiveForward>::empty());
        }
        removed
    }

    /// Removes the forwards of the ports in `exited`, whose processes have
    /// ended; gives back, each once, the ports that were active and are now
    /// removed.
    pub fn reap_dead_forwards(&mut self, exited: &[u16]) -> (removed: Vec<u16>)
        ensures
            final(self)@ == old(self)@.remove_keys(exited@.to_set()),
            forall|p: u16|
                #[trigger] removed@.contains(p) <==> (exited@.contains(p) && old(self)@.contains_key(
                    p,
                )),
            removed@.no_duplicates(),
    {
        let mut removed: Vec<u16> = Vec::new();
        let mut i: usize = 0;
        while i < exited.len()
            invariant
                i <= exited@.len(),
                self@ == old(self)@.remove_keys(exited@.take(i as int).to_set()),
                forall|p: u16|
                    #[trigger] removed@.contains(p) <==> (exited@.take(i as int).contains(p)
                        && old(self)@.contains_key(p)),
                removed@.no_duplicates(),
            decreases exited@.len() - i,
        {
            let p = exited[i];
            let ghost before = removed@;
            proof {
                let t = exited@.take(i + 1);
                assert(t.drop_last() =~= exited@.take(i as int));
                assert(t.drop_last().to_set().insert(t.last()) =~= t.to_set());
                assert forall|q: u16| #[trigger] t.contains(q) <==> (exited@.take(i as int).contains(q)
                    || q == p) by {
                    lemma_push_contains(exited@.take(i as int), p, q);
                }
            }
            if self.is_active(p) {
                self.stop_forward(p);
                removed.push(p);
                proof {
                    assert(!before.contains(p));
                    assert forall|q: u16| #[trigger] removed@.contains(q) <==> (before.contains(q) || q == p) by {
                        lemma_push_contains(before, p, q);
                    }
                }
            }
            assert(self@ =~= old(self)@.remove_keys(exited@.take(i + 1).to_set()));
            i = i + 1;
        }
        assert(exited@.take(i as int) =~= exited@);
        removed
    }
}

} // verus!
