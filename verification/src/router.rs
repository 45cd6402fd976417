//! The device-routing table.
//!
//! A router owns the device set and maps a destination address to the device
//! and next-hop address that serve it, through an ordered rule table: the
//! first rule whose subnet contains the destination wins. There is no
//! longest-prefix matching; the table is meant for a handful of static rules
//! (a loopback subnet plus a default route via a gateway).

use vstd::prelude::*;

use crate::device::Device;
use crate::err::{SysError, SysResult};
use crate::ip::{Ipv4Addr, Ipv4Cidr};

verus! {

/// A stable identifier of a registered device: its index in the device set.
///
/// Identifiers stay valid for the life of the router; devices are never
/// removed after initialization.
pub type DeviceId = usize;

/// One routing rule.
#[derive(Clone, Copy, Debug, PartialEq, Eq, Structural)]
pub struct Rule {
    /// Destination subnet this rule serves.
    pub subnet: Ipv4Cidr,
    /// Address the packet is physically delivered to, when not delivered
    /// directly to its destination.
    pub gateway: Option<Ipv4Addr>,
    /// The device that carries the packet.
    pub device: DeviceId,
    /// The source address to use when this rule is chosen.
    pub src: Ipv4Addr,
}

impl Rule {
    /// Structural well-formedness of a rule: its subnet is a real subnet.
    pub open spec fn wf(self) -> bool {
        self.subnet.wf()
    }

    /// Whether this rule serves `dst`.
    pub open spec fn matches(self, dst: Ipv4Addr) -> bool {
        self.subnet.spec_contains(dst)
    }

    /// The next hop this rule delivers to: its gateway if it has one, else
    /// the destination itself (direct delivery).
    pub open spec fn spec_next_hop(self, dst: Ipv4Addr) -> Ipv4Addr {
        match self.gateway {
            Some(g) => g,
            None => dst,
        }
    }

    /// Builds a rule.
    pub fn new(subnet: Ipv4Cidr, gateway: Option<Ipv4Addr>, device: DeviceId, src: Ipv4Addr) -> (r:
        Rule)
        requires
            subnet.wf(),
        ensures
            r == (Rule { subnet, gateway, device, src }),
            r.wf(),
    {
        Rule { subnet, gateway, device, src }
    }
}

/// The ordered rule table plus the owned device set.
pub struct Router {
    /// Rules, scanned in insertion order; the first match wins.
    pub rules: Vec<Rule>,
    /// The devices, indexed by their [`DeviceId`].
    pub devices: Vec<Device>,
}

impl Router {
    /// All rules in the table are well formed.
    pub open spec fn wf(self) -> bool {
        forall|i: int| 0 <= i < self.rules@.len() ==> (#[trigger] self.rules@[i]).wf()
    }

    /// Whether some rule in `rules` serves `dst`.
    pub open spec fn some_rule_matches(rules: Seq<Rule>, dst: Ipv4Addr) -> bool {
        exists|i: int| 0 <= i < rules.len() && (#[trigger] rules[i]).matches(dst)
    }

    /// The routing decision `route` is specified against: the first matching
    /// rule's device and next hop.
    pub open spec fn spec_route(rules: Seq<Rule>, dst: Ipv4Addr) -> Option<(DeviceId, Ipv4Addr)>
        decreases rules.len(),
    {
        if rules.len() == 0 {
            None
        } else if rules[0].matches(dst) {
            Some((rules[0].device, rules[0].spec_next_hop(dst)))
        } else {
            Router::spec_route(rules.skip(1), dst)
        }
    }

    /// An empty router: no rules, no devices.
    pub fn new() -> (r: Router)
        ensures
            r.rules@.len() == 0,
            r.devices@.len() == 0,
            r.wf(),
    {
        Router { rules: Vec::new(), devices: Vec::new() }
    }

    /// Registers a device and returns its stable identifier.
    pub fn add_device(&mut self, device: Device) -> (id: DeviceId)
        ensures
            id == old(self).devices@.len(),
            final(self).devices@ == old(self).devices@.push(device),
            final(self).rules@ == old(self).rules@,
    {
        let id = self.devices.len();
        self.devices.push(device);
        id
    }

    /// Appends a rule to the ordered table. No validation happens beyond
    /// structural well-formedness, which the rule type already carries.
    pub fn add_rule(&mut self, rule: Rule)
        requires
            rule.wf(),
        ensures
            final(self).rules@ == old(self).rules@.push(rule),
            final(self).devices@ == old(self).devices@,
    {
        self.rules.push(rule);
    }

    /// Scans the rules in insertion order and returns the first rule's
    /// device and next hop, or `None` when no rule matches. Callers treat
    /// `None` as host or network unreachable.
    pub fn route(&self, dst: Ipv4Addr) -> (r: Option<(DeviceId, Ipv4Addr)>)
        requires
            self.wf(),
        ensures
            r == Router::spec_route(self.rules@, dst),
            r is Some <==> Router::some_rule_matches(self.rules@, dst),
    {
        proof {
            Router::lemma_route_characterization(self.rules@, dst);
            assert(self.rules@.skip(0) =~= self.rules@);
        }
        let n = self.rules.len();
        let mut i: usize = 0;
        while i < n
            invariant
                n == self.rules@.len(),
                0 <= i <= n,
                self.wf(),
                forall|j: int| 0 <= j < i ==> !(#[trigger] self.rules@[j]).matches(dst),
                Router::spec_route(self.rules@, dst) == Router::spec_route(
                    self.rules@.skip(i as int),
                    dst,
                ),
            decreases n - i,
        {
            let rule = self.rules[i];
            if rule.contains_dst(dst) {
                let next_hop = match rule.gateway {
                    Some(g) => g,
                    None => dst,
                };
                proof {
                    assert(self.rules@.skip(i as int)[0] == self.rules@[i as int]);
                }
                return Some((rule.device, next_hop));
            }
            proof {
                assert(self.rules@.skip(i as int).skip(1) =~= self.rules@.skip(i + 1));
            }
            i = i + 1;
        }
        proof {
            assert(self.rules@.skip(n as int).len() == 0);
        }
        None
    }

    /// Routes `dst` for a caller that needs a device: a missing route is
    /// the error the caller reports, host or network unreachable.
    pub fn resolve_route(&self, dst: Ipv4Addr) -> (r: SysResult<(DeviceId, Ipv4Addr)>)
        requires
            self.wf(),
        ensures
            r is Ok <==> Router::some_rule_matches(self.rules@, dst),
            r is Ok ==> Some(r->Ok_0) == Router::spec_route(self.rules@, dst),
            r is Err ==> r == Err::<(DeviceId, Ipv4Addr), SysError>(SysError::NoRoute),
    {
        match self.route(dst) {
            Some(hop) => Ok(hop),
            None => Err(SysError::NoRoute),
        }
    }

    /// `spec_route` answers `Some` exactly when some rule matches.
    pub proof fn lemma_route_characterization(rules: Seq<Rule>, dst: Ipv4Addr)
        ensures
            Router::spec_route(rules, dst) is Some <==> Router::some_rule_matches(rules, dst),
        decreases rules.len(),
    {
        if rules.len() > 0 && !rules[0].matches(dst) {
            Router::lemma_route_characterization(rules.skip(1), dst);
            assert(Router::some_rule_matches(rules.skip(1), dst)
                <==> Router::some_rule_matches(rules, dst)) by {
                if Router::some_rule_matches(rules.skip(1), dst) {
                    let i = choose|i: int|
                        0 <= i < rules.skip(1).len() && (#[trigger] rules.skip(1)[i]).matches(dst);
                    assert(rules[i + 1].matches(dst));
                }
                if Router::some_rule_matches(rules, dst) {
                    let i = choose|i: int|
                        0 <= i < rules.len() && (#[trigger] rules[i]).matches(dst);
                    assert(i >= 1);
                    assert(rules.skip(1)[i - 1].matches(dst));
                }
            }
        }
    }
}

impl Rule {
    /// Decides whether this rule serves `dst`.
    pub fn contains_dst(&self, dst: Ipv4Addr) -> (r: bool)
        requires
            self.wf(),
        ensures
            r == self.matches(dst),
    {
        self.subnet.contains(dst)
    }
}

} // verus!
