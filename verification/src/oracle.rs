//! The address membership oracle: the set of addresses that belong to the
//! monitored host, built once from the interfaces of a session.

use std::collections::HashSet;
use vstd::prelude::*;
use vstd::std_specs::hash::*;
use crate::address::{IpAddress, MacAddr, LOOPBACK_V4, LOOPBACK_V6};
use crate::text::{any_selector, is_any, same_text};

verus! {

broadcast use vstd::std_specs::hash::group_hash_axioms;

/// Which kind of address decides the direction of a frame.
#[derive(Debug, Clone, Copy, PartialEq, Eq, Structural)]
pub enum ClassifierMode {
    MacBased,
    IpBased,
}

/// What the oracle needs to know of one network interface.
#[derive(Debug, Clone)]
pub struct InterfaceInfo {
    pub name: String,
    /// The six octets of the hardware address, in transmission order.
    pub mac: Option<[u8; 6]>,
    pub ips: Vec<IpAddress>,
}

impl InterfaceInfo {
    /// The hardware address of the interface, if it has one.
    pub open spec fn hardware_address(self) -> Option<MacAddr> {
        match self.mac {
            Some(octets) => Some(MacAddr::of_octets(octets)),
            None => None,
        }
    }
}

/// The mathematical content of a [`LocalAddressSet`].
pub struct LocalAddresses {
    pub mode: ClassifierMode,
    pub macs: Set<MacAddr>,
    pub ips: Set<IpAddress>,
}

/// The local addresses of a session, of one kind only.
pub struct LocalAddressSet {
    mode: ClassifierMode,
    macs: HashSet<u64>,
    v4: HashSet<u32>,
    v6: HashSet<u128>,
}

/// Whether the selector names this interface; `any` names them all.
pub open spec fn selects(selector: Seq<char>, interface: InterfaceInfo) -> bool {
    selector == any_selector() || interface.name@ == selector
}

/// The hardware addresses of the first `count` interfaces that the selector names.
pub open spec fn macs_of(selector: Seq<char>, interfaces: Seq<InterfaceInfo>, count: int) -> Set<
    MacAddr,
> {
    Set::new(
        |mac: MacAddr|
            exists|i: int|
                0 <= i < count && selects(selector, #[trigger] interfaces[i])
                    && interfaces[i].hardware_address() == Some(mac),
    )
}

/// The first `count_ips` addresses of interface `index`, if the selector names it.
pub open spec fn ips_of_interface(
    selector: Seq<char>,
    interfaces: Seq<InterfaceInfo>,
    index: int,
    count_ips: int,
) -> Set<IpAddress> {
    Set::new(
        |ip: IpAddress|
            selects(selector, interfaces[index]) && exists|j: int|
                0 <= j < count_ips && #[trigger] interfaces[index].ips@[j] == ip,
    )
}

/// Both loopback addresses and every address of the first `count`
/// interfaces that the selector names.
pub open spec fn ips_of(selector: Seq<char>, interfaces: Seq<InterfaceInfo>, count: int) -> Set<
    IpAddress,
> {
    Set::new(
        |ip: IpAddress|
            ip == IpAddress::V4(LOOPBACK_V4) || ip == IpAddress::V6(LOOPBACK_V6) || exists|i: int|
                0 <= i < count && #[trigger] ips_of_interface(
                    selector,
                    interfaces,
                    i,
                    interfaces[i].ips@.len() as int,
                ).contains(ip),
    )
}

/// The local addresses of a session: in MAC mode the hardware address of
/// each selected interface, in IP mode all their addresses and the two
/// loopback addresses. The set of the other kind is empty.
pub open spec fn local_addresses(
    mode: ClassifierMode,
    selector: Seq<char>,
    interfaces: Seq<InterfaceInfo>,
) -> LocalAddresses {
    match mode {
        ClassifierMode::MacBased => LocalAddresses {
            mode,
            macs: macs_of(selector, interfaces, interfaces.len() as int),
            ips: Set::empty(),
        },
        ClassifierMode::IpBased => LocalAddresses {
            mode,
            macs: Set::empty(),
            ips: ips_of(selector, interfaces, interfaces.len() as int),
        },
    }
}

/// An address is local in IP mode exactly if it is a loopback address or an
/// address of an interface that the selector names.
pub proof fn law_local_ips(selector: Seq<char>, interfaces: Seq<InterfaceInfo>, ip: IpAddress)
    ensures
        local_addresses(ClassifierMode::IpBased, selector, interfaces).ips.contains(ip) <==> ip
            == IpAddress::V4(LOOPBACK_V4) || ip == IpAddress::V6(LOOPBACK_V6) || exists|
            i: int,
            j: int,
        |
            0 <= i < interfaces.len() && selects(selector, interfaces[i]) && 0 <= j
                < interfaces[i].ips@.len() && #[trigger] interfaces[i].ips@[j] == ip,
{
    let count = interfaces.len() as int;
    let local = local_addresses(ClassifierMode::IpBased, selector, interfaces).ips;
    if local.contains(ip) && ip != IpAddress::V4(LOOPBACK_V4) && ip != IpAddress::V6(
        LOOPBACK_V6,
    ) {
        let i = choose|i: int|
            0 <= i < count && #[trigger] ips_of_interface(
                selector,
                interfaces,
                i,
                interfaces[i].ips@.len() as int,
            ).contains(ip);
        let j = choose|j: int|
            0 <= j < interfaces[i].ips@.len() && #[trigger] interfaces[i].ips@[j] == ip;
        assert(selects(selector, interfaces[i]) && interfaces[i].ips@[j] == ip);
    }
    if exists|i: int, j: int|
        0 <= i < interfaces.len() && selects(selector, interfaces[i]) && 0 <= j
            < interfaces[i].ips@.len() && #[trigger] interfaces[i].ips@[j] == ip {
        let (i, j) = choose|i: int, j: int|
            0 <= i < interfaces.len() && selects(selector, interfaces[i]) && 0 <= j
                < interfaces[i].ips@.len() && #[trigger] interfaces[i].ips@[j] == ip;
        assert(ips_of_interface(
            selector,
            interfaces,
            i,
            interfaces[i].ips@.len() as int,
        ).contains(ip));
    }
}

/// An address is local in MAC mode exactly if it is the hardware address of
/// an interface that the selector names.
pub proof fn law_local_macs(selector: Seq<char>, interfaces: Seq<InterfaceInfo>, mac: MacAddr)
    ensures
        local_addresses(ClassifierMode::MacBased, selector, interfaces).macs.contains(mac)
            <==> exists|i: int|
            0 <= i < interfaces.len() && selects(selector, #[trigger] interfaces[i])
                && interfaces[i].hardware_address() == Some(mac),
{
}

impl View for LocalAddressSet {
    type V = LocalAddresses;

    closed spec fn view(&self) -> LocalAddresses {
        LocalAddresses {
            mode: self.mode,
            macs: Set::new(|mac: MacAddr| self.macs@.contains(mac.value)),
            ips: Set::new(
                |ip: IpAddress|
                    match ip {
                        IpAddress::V4(bits) => self.v4@.contains(bits),
                        IpAddress::V6(bits) => self.v6@.contains(bits),
                    },
            ),
        }
    }
}

impl LocalAddressSet {
    /// A set of the given kind that holds no address.
    fn empty(mode: ClassifierMode) -> (set: LocalAddressSet)
        ensures
            set@.mode == mode,
            set@.macs == Set::<MacAddr>::empty(),
            set@.ips == Set::<IpAddress>::empty(),
    {
        let set = LocalAddressSet {
            mode,
            macs: HashSet::new(),
            v4: HashSet::new(),
            v6: HashSet::new(),
        };
        assert(set@.macs =~= Set::<MacAddr>::empty());
        assert(set@.ips =~= Set::<IpAddress>::empty());
        set
    }

    fn insert_mac(&mut self, mac: MacAddr)
        ensures
            final(self)@.mode == old(self)@.mode,
            final(self)@.macs == old(self)@.macs.insert(mac),
            final(self)@.ips == old(self)@.ips,
    {
        self.macs.insert(mac.value);
        assert(self@.macs =~= old(self)@.macs.insert(mac));
        assert(self@.ips =~= old(self)@.ips);
    }

    fn insert_ip(&mut self, ip: IpAddress)
        ensures
            final(self)@.mode == old(self)@.mode,
            final(self)@.macs == old(self)@.macs,
            final(self)@.ips == old(self)@.ips.insert(ip),
    {
        match ip {
            IpAddress::V4(bits) => {
                self.v4.insert(bits);
            },
            IpAddress::V6(bits) => {
                self.v6.insert(bits);
            },
        }
        assert(self@.macs =~= old(self)@.macs);
        assert(self@.ips =~= old(self)@.ips.insert(ip));
    }

    /// Builds the oracle of a session from the interfaces of the host.
    pub fn from_interfaces(
        mode: ClassifierMode,
        selector: &str,
        interfaces: &Vec<InterfaceInfo>,
    ) -> (set: LocalAddressSet)
        ensures
            set@ == local_addresses(mode, selector@, interfaces@),
    {
        let mut set = LocalAddressSet::empty(mode);
        let wildcard = is_any(selector);
        match mode {
            ClassifierMode::MacBased => {
                let mut i: usize = 0;
                assert(set@.macs =~= macs_of(selector@, interfaces@, 0));
                while i < interfaces.len()
                    invariant
                        i <= interfaces.len(),
                        wildcard == (selector@ == any_selector()),
                        set@.mode == mode,
                        set@.ips == Set::<IpAddress>::empty(),
                        set@.macs == macs_of(selector@, interfaces@, i as int),
                    decreases interfaces.len() - i,
                {
                    let interface = &interfaces[i];
                    let ghost before = set@.macs;
                    if wildcard || same_text(interface.name.as_str(), selector) {
                        if let Some(octets) = interface.mac {
                            set.insert_mac(MacAddr::from_octets(&octets));
                        }
                    }
                    assert(set@.macs =~= macs_of(selector@, interfaces@, i + 1)) by {
                        assert forall|mac: MacAddr|
                            macs_of(selector@, interfaces@, i + 1).contains(
                                mac,
                            ) implies set@.macs.contains(mac) by {
                            let k = choose|k: int|
                                0 <= k < i + 1 && selects(selector@, #[trigger] interfaces@[k])
                                    && interfaces@[k].hardware_address() == Some(mac);
                            if k < i {
                                assert(macs_of(selector@, interfaces@, i as int).contains(mac));
                            }
                        }
                        assert forall|mac: MacAddr| set@.macs.contains(mac) implies macs_of(
                            selector@,
                            interfaces@,
                            i + 1,
                        ).contains(mac) by {
                            if before.contains(mac) {
                                let k = choose|k: int|
                                    0 <= k < i && selects(selector@, #[trigger] interfaces@[k])
                                        && interfaces@[k].hardware_address() == Some(mac);
                                assert(selects(selector@, interfaces@[k]));
                            } else {
                                assert(selects(selector@, interfaces@[i as int]));
                            }
                        }
                    }
                    i = i + 1;
                }
            },
            ClassifierMode::IpBased => {
                set.insert_ip(IpAddress::V4(LOOPBACK_V4));
                set.insert_ip(IpAddress::V6(LOOPBACK_V6));
                assert(set@.ips =~= ips_of(selector@, interfaces@, 0));
                let mut i: usize = 0;
                while i < interfaces.len()
                    invariant
                        i <= interfaces.len(),
                        wildcard == (selector@ == any_selector()),
                        set@.mode == mode,
                        set@.macs == Set::<MacAddr>::empty(),
                        set@.ips == ips_of(selector@, interfaces@, i as int),
                    decreases interfaces.len() - i,
                {
                    let interface = &interfaces[i];
                    let ghost before = set@.ips;
                    let chosen = wildcard || same_text(interface.name.as_str(), selector);
                    let mut j: usize = 0;
                    assert(ips_of_interface(selector@, interfaces@, i as int, 0) =~= Set::<
                        IpAddress,
                    >::empty());
                    while chosen && j < interface.ips.len()
                        invariant
                            i < interfaces.len(),
                            interface == &interfaces@[i as int],
                            j <= interface.ips.len(),
                            chosen == selects(selector@, interfaces@[i as int]),
                            set@.mode == mode,
                            set@.macs == Set::<MacAddr>::empty(),
                            set@.ips == before.union(
                                ips_of_interface(selector@, interfaces@, i as int, j as int),
                            ),
                        decreases interface.ips.len() - j,
                    {
                        let ip = interface.ips[j];
                        set.insert_ip(ip);
                        assert(ips_of_interface(selector@, interfaces@, i as int, j + 1)
                            =~= ips_of_interface(selector@, interfaces@, i as int, j as int).insert(
                            ip,
                        )) by {
                            assert(interfaces@[i as int].ips@[j as int] == ip);
                        }
                        assert(set@.ips =~= before.union(
                            ips_of_interface(selector@, interfaces@, i as int, j + 1),
                        ));
                        j = j + 1;
                    }
                    assert(set@.ips =~= ips_of(selector@, interfaces@, i + 1)) by {
                        let whole = ips_of_interface(
                            selector@,
                            interfaces@,
                            i as int,
                            interfaces@[i as int].ips@.len() as int,
                        );
                        if !chosen {
                            assert(whole =~= Set::<IpAddress>::empty());
                        }
                        assert(set@.ips =~= before.union(whole));
                        assert forall|ip: IpAddress|
                            ips_of(selector@, interfaces@, i + 1).contains(
                                ip,
                            ) implies before.union(whole).contains(ip) by {
                            if ip != IpAddress::V4(LOOPBACK_V4) && ip != IpAddress::V6(
                                LOOPBACK_V6,
                            ) {
                                let k = choose|k: int|
                                    0 <= k < i + 1 && #[trigger] ips_of_interface(
                                        selector@,
                                        interfaces@,
                                        k,
                                        interfaces@[k].ips@.len() as int,
                                    ).contains(ip);
                                if k < i {
                                    assert(ips_of(selector@, interfaces@, i as int).contains(ip));
                                }
                            }
                        }
                        assert forall|ip: IpAddress|
                            before.union(whole).contains(ip) implies ips_of(
                            selector@,
                            interfaces@,
                            i + 1,
                        ).contains(ip) by {
                            if whole.contains(ip) {
                                assert(ips_of_interface(
                                    selector@,
                                    interfaces@,
                                    i as int,
                                    interfaces@[i as int].ips@.len() as int,
                                ).contains(ip));
                            } else if ip != IpAddress::V4(LOOPBACK_V4) && ip != IpAddress::V6(
                                LOOPBACK_V6,
                            ) {
                                let k = choose|k: int|
                                    0 <= k < i && #[trigger] ips_of_interface(
                                        selector@,
                                        interfaces@,
                                        k,
                                        interfaces@[k].ips@.len() as int,
                                    ).contains(ip);
                                assert(ips_of_interface(
                                    selector@,
                                    interfaces@,
                                    k,
                                    interfaces@[k].ips@.len() as int,
                                ).contains(ip));
                            }
                        }
                    }
                    i = i + 1;
                }
            },
        }
        set
    }

    /// The kind of address this oracle answers for.
    pub fn mode(&self) -> (mode: ClassifierMode)
        ensures
            mode == self@.mode,
    {
        self.mode
    }

    /// Whether `mac` is a local hardware address.
    pub fn contains_mac(&self, mac: MacAddr) -> (found: bool)
        ensures
            found == self@.macs.contains(mac),
    {
        self.macs.contains(&mac.value)
    }

    /// Whether `ip` is a local network address.
    pub fn contains_ip(&self, ip: IpAddress) -> (found: bool)
        ensures
            found == self@.ips.contains(ip),
    {
        match ip {
            IpAddress::V4(bits) => self.v4.contains(&bits),
            IpAddress::V6(bits) => self.v6.contains(&bits),
        }
    }
}

} // verus!
