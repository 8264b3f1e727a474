//! Serial-port leases. At most one holder per port; a holder that asks to preempt takes
//! the port regardless. Releasing a lease frees its port.
use crate::text::{str_to_string, string_eq};
use vstd::prelude::*;

verus! {

#[derive(Debug, Clone, Copy, PartialEq, Eq)]
pub enum LeaseHolder {
    Monitor,
    Upload,
    Telemetry,
    External,
}

#[derive(Debug, Clone, Copy, PartialEq, Eq)]
pub struct PortBusy {
    pub held_by: LeaseHolder,
}

/// The right to use one port, until handed back with [`PortBroker::release`]. The port is
/// freed only by that call: Verus does not verify `Drop`, so dropping a lease without
/// releasing it leaves the port held.
#[derive(Debug)]
pub struct Lease {
    port: String,
}

impl Lease {
    pub closed spec fn port_view(&self) -> Seq<char> {
        self.port@
    }

    pub fn port(&self) -> (r: &str)
        ensures
            r@ == self.port_view(),
    {
        self.port.as_str()
    }
}

pub struct PortBroker {
    ports: Vec<(String, LeaseHolder)>,
}

/// The holder recorded first for `port` in a table of (port, holder) rows.
pub open spec fn holder_in(rows: Seq<(String, LeaseHolder)>, port: Seq<char>) -> Option<LeaseHolder>
    decreases rows.len(),
{
    if rows.len() == 0 {
        None
    } else {
        match holder_in(rows.drop_last(), port) {
            Some(h) => Some(h),
            None => if rows.last().0@ == port {
                Some(rows.last().1)
            } else {
                None
            },
        }
    }
}

proof fn lemma_holder_prefix(rows: Seq<(String, LeaseHolder)>, port: Seq<char>, k: int)
    requires
        0 <= k <= rows.len(),
        holder_in(rows.take(k), port) is Some,
    ensures
        holder_in(rows, port) == holder_in(rows.take(k), port),
    decreases rows.len() - k,
{
    if k < rows.len() {
        assert(rows.take(k + 1).drop_last() == rows.take(k));
        lemma_holder_prefix(rows, port, k + 1);
    } else {
        assert(rows.take(k) == rows);
    }
}

/// Overwriting row `i`'s holder, where `i` is the first row for that port, changes only
/// that port's holder.
proof fn lemma_holder_update(rows: Seq<(String, LeaseHolder)>, i: int, who: LeaseHolder, p: Seq<char>)
    requires
        0 <= i < rows.len(),
        holder_in(rows.take(i), rows[i].0@) is None,
    ensures
        holder_in(rows.update(i, (rows[i].0, who)), p) == if p == rows[i].0@ {
            Some(who)
        } else {
            holder_in(rows, p)
        },
    decreases rows.len(),
{
    let r2 = rows.update(i, (rows[i].0, who));
    if i == rows.len() - 1 {
        assert(r2.drop_last() == rows.drop_last());
        assert(rows.take(i) == rows.drop_last());
    } else {
        assert(r2.drop_last() == rows.drop_last().update(i, (rows[i].0, who)));
        assert(rows.drop_last().take(i) == rows.take(i));
        lemma_holder_update(rows.drop_last(), i, who, p);
    }
}

proof fn lemma_holder_push(rows: Seq<(String, LeaseHolder)>, port: String, who: LeaseHolder, p: Seq<char>)
    requires
        holder_in(rows, port@) is None,
    ensures
        holder_in(rows.push((port, who)), p) == if p == port@ {
            Some(who)
        } else {
            holder_in(rows, p)
        },
{
    assert(rows.push((port, who)).drop_last() == rows);
}

impl PortBroker {
    /// The holder of each port: `None` when the port is free.
    pub closed spec fn holder(&self, port: Seq<char>) -> Option<LeaseHolder> {
        holder_in(self.ports@, port)
    }

    pub fn new() -> (r: Self)
        ensures
            forall|p: Seq<char>| r.holder(p) is None,
    {
        PortBroker { ports: Vec::new() }
    }

    fn find(&self, port: &String) -> (r: Option<usize>)
        ensures
            match r {
                Some(i) => i < self.ports.len() && self.ports@[i as int].0@ == port@ && holder_in(
                    self.ports@.take(i as int),
                    port@,
                ) is None,
                None => holder_in(self.ports@, port@) is None,
            },
    {
        let mut i: usize = 0;
        while i < self.ports.len()
            invariant
                i <= self.ports.len(),
                holder_in(self.ports@.take(i as int), port@) is None,
            decreases self.ports.len() - i,
        {
            proof {
                assert(self.ports@.take(i + 1).drop_last() == self.ports@.take(i as int));
            }
            if string_eq(&self.ports[i].0, port) {
                return Some(i);
            }
            i += 1;
        }
        assert(self.ports@.take(i as int) == self.ports@);
        None
    }

    /// Leases `port` to `who`. A held port is refused, naming its holder, unless `preempt`
    /// is set, in which case `who` takes it over.
    pub fn acquire(&mut self, port: &str, who: LeaseHolder, preempt: bool) -> (r: Result<Lease, PortBusy>)
        ensures
            match r {
                Ok(lease) => {
                    &&& lease.port_view() == port@
                    &&& (old(self).holder(port@) is None || preempt)
                    &&& forall|p: Seq<char>| #[trigger] final(self).holder(p) == if p == port@ {
                        Some(who)
                    } else {
                        old(self).holder(p)
                    }
                },
                Err(busy) => {
                    &&& !preempt
                    &&& old(self).holder(port@) == Some(busy.held_by)
                    &&& forall|p: Seq<char>| #[trigger] final(self).holder(p) == old(self).holder(p)
                },
            },
    {
        let key = str_to_string(port);
        match self.find(&key) {
            Some(i) => {
                proof {
                    lemma_holder_prefix(self.ports@, port@, i + 1);
                    assert(self.ports@.take(i + 1).drop_last() == self.ports@.take(i as int));
                }
                if !preempt {
                    return Err(PortBusy { held_by: self.ports[i].1 });
                }
                let ghost old_rows = self.ports@;
                let k = self.ports[i].0.clone();
                self.ports.set(i, (k, who));
                proof {
                    assert forall|p: Seq<char>| #[trigger] holder_in(self.ports@, p) == if p == port@ {
                        Some(who)
                    } else {
                        holder_in(old_rows, p)
                    } by {
                        lemma_holder_update(old_rows, i as int, who, p);
                    }
                }
            },
            None => {
                let ghost old_rows = self.ports@;
                let k = key.clone();
                self.ports.push((k, who));
                proof {
                    assert forall|p: Seq<char>| #[trigger] holder_in(self.ports@, p) == if p == port@ {
                        Some(who)
                    } else {
                        holder_in(old_rows, p)
                    } by {
                        lemma_holder_push(old_rows, key, who, p);
                    }
                }
            },
        }
        Ok(Lease { port: key })
    }

    /// Hands a lease back: its port becomes free, whoever holds it now.
    pub fn release(&mut self, lease: Lease)
        ensures
            forall|p: Seq<char>| #[trigger] final(self).holder(p) == if p == lease.port_view() {
                None
            } else {
                old(self).holder(p)
            },
    {
        let mut kept: Vec<(String, LeaseHolder)> = Vec::new();
        let mut i: usize = 0;
        while i < self.ports.len()
            invariant
                i <= self.ports.len(),
                forall|p: Seq<char>| #[trigger] holder_in(kept@, p) == if p == lease.port@ {
                    None
                } else {
                    holder_in(self.ports@.take(i as int), p)
                },
            decreases self.ports.len() - i,
        {
            let ghost before = kept@;
            let same = string_eq(&self.ports[i].0, &lease.port);
            if !same {
                let k = self.ports[i].0.clone();
                kept.push((k, self.ports[i].1));
            }
            proof {
                let t1 = self.ports@.take(i + 1);
                assert(t1.drop_last() == self.ports@.take(i as int));
                assert(t1.last() == self.ports@[i as int]);
                if !same {
                    assert(kept@.drop_last() == before);
                    assert(kept@.last() == self.ports@[i as int]);
                } else {
                    assert(kept@ == before);
                }
                assert forall|p: Seq<char>| #[trigger] holder_in(kept@, p) == if p == lease.port@ {
                    None
                } else {
                    holder_in(t1, p)
                } by {
                    if p == lease.port@ {
                        assert(holder_in(before, p) is None);
                    } else {
                        assert(holder_in(before, p) == holder_in(self.ports@.take(i as int), p));
                    }
                }
            }
            i += 1;
        }
        assert(self.ports@.take(i as int) == self.ports@);
        self.ports = kept;
    }

    /// Who holds `port`, if anyone.
    pub fn current_holder(&self, port: &str) -> (r: Option<LeaseHolder>)
        ensures
            r == self.holder(port@),
    {
        let key = str_to_string(port);
        match self.find(&key) {
            Some(i) => {
                proof {
                    lemma_holder_prefix(self.ports@, port@, i + 1);
                    assert(self.ports@.take(i + 1).drop_last() == self.ports@.take(i as int));
                }
                Some(self.ports[i].1)
            },
            None => None,
        }
    }
}

/// A port freshly leased is held by the new holder, and releasing that lease frees it.
pub proof fn law_acquire_then_release(b0: PortBroker, b1: PortBroker, b2: PortBroker, port: Seq<char>, who: LeaseHolder)
    requires
        forall|p: Seq<char>| #[trigger] b1.holder(p) == if p == port {
            Some(who)
        } else {
            b0.holder(p)
        },
        forall|p: Seq<char>| #[trigger] b2.holder(p) == if p == port {
            None
        } else {
            b1.holder(p)
        },
    ensures
        b1.holder(port) == Some(who),
        b2.holder(port) is None,
        forall|p: Seq<char>| p != port ==> #[trigger] b2.holder(p) == b0.holder(p),
{
}

} // verus!
