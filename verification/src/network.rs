//! The network of one test: an isolated subnet, the allocator of its
//! addresses and the services that live in it, in the order in which they
//! were added.
//!
//! The network keeps the books. Starting and stopping containers is the
//! caller's work: it asks the network for an address before it starts a
//! container and tells the network what became of it.

use crate::address::{AddressAllocator, AllocError, Subnet};
use crate::service::{ServiceContext, ServiceDescriptor, ServiceState};
use crate::text::{same_text, texts};
use vstd::prelude::*;
use vstd::string::*;

verus! {

/// Where a network stands in its life cycle.
#[derive(Clone, Copy, Debug, PartialEq, Eq)]
pub enum NetworkState {
    /// Services can be added.
    Open,
    /// The network is being torn down: no service can be added.
    Closing,
    /// Every service has ended and the subnet is given back.
    Closed,
}

/// Why the network refused a request.
#[derive(Clone, Copy, Debug, PartialEq, Eq)]
pub enum NetworkError {
    /// The network is closing or closed.
    NotOpen,
    /// The service's identifier is empty.
    EmptyServiceId,
    /// The network has had a service with this identifier.
    DuplicateServiceId,
    /// Every usable address of the subnet is in use.
    PoolExhausted,
    /// The network has no service with this identifier.
    UnknownService,
    /// The service is stopped or failed, and stays so.
    ServiceTerminated,
    /// The service's life cycle has no such step from where it stands.
    TransitionNotAllowed,
}

/// The identifiers of the services of `services` that have not ended, the one
/// added last first: the order in which they are stopped.
pub open spec fn teardown_order(services: Seq<ServiceContext>) -> Seq<Seq<char>>
    decreases services.len(),
{
    if services.len() == 0 {
        Seq::empty()
    } else if services[0].state().terminal() {
        teardown_order(services.drop_first())
    } else {
        teardown_order(services.drop_first()).push(services[0].id())
    }
}

/// The isolated subnet of one test and the services in it.
pub struct NetworkContext {
    allocator: AddressAllocator,
    services: Vec<ServiceContext>,
    state: NetworkState,
}

impl NetworkContext {
    /// The allocator of the network's addresses.
    pub closed spec fn allocator(self) -> AddressAllocator {
        self.allocator
    }

    /// The services of the network, in the order in which they were added.
    pub closed spec fn services(self) -> Seq<ServiceContext> {
        self.services@
    }

    /// Where the network stands in its life cycle.
    pub closed spec fn state(self) -> NetworkState {
        self.state
    }

    /// The network's subnet.
    pub open spec fn subnet(self) -> Subnet {
        self.allocator().subnet()
    }

    /// The addresses that are in use.
    pub open spec fn allocated(self) -> Set<u32> {
        self.allocator().allocated()
    }

    /// The network has a service at `i`, and it has not ended.
    pub open spec fn live_at(self, i: int) -> bool {
        0 <= i < self.services().len() && !self.services()[i].state().terminal()
    }

    /// The service at `i` has not ended and holds the address `ip`.
    pub open spec fn held_by(self, ip: u32, i: int) -> bool {
        self.live_at(i) && self.services()[i].ip() == ip
    }

    /// The network has, or has had, a service called `id`.
    pub open spec fn has_service(self, id: Seq<char>) -> bool {
        exists|i: int| 0 <= i < self.services().len() && #[trigger] self.services()[i].id() == id
    }

    /// The network's invariant.
    ///
    /// Identifiers are not empty and not used twice. Every service's address
    /// is a usable address of the subnet. The addresses in use are exactly
    /// those of the services that have not ended, and no service that was
    /// added later has the address of one that has not ended. In a closed
    /// network every service has ended.
    pub open spec fn wf(self) -> bool {
        &&& self.allocator().wf()
        &&& forall|i: int|
            0 <= i < self.services().len() ==> (#[trigger] self.services()[i]).wf()
                && self.services()[i].id().len() > 0 && self.subnet().is_usable(
                self.services()[i].ip(),
            ) && (self.live_at(i) ==> self.allocated().contains(self.services()[i].ip()))
        &&& forall|i: int, j: int|
            0 <= i < j < self.services().len() ==> (#[trigger] self.services()[i]).id() != (
            #[trigger] self.services()[j]).id()
        &&& forall|i: int, j: int|
            0 <= i < j < self.services().len() && self.live_at(i) ==> (
            #[trigger] self.services()[i]).ip() != (#[trigger] self.services()[j]).ip()
        &&& forall|ip: u32| #[trigger]
            self.allocated().contains(ip) ==> exists|i: int| self.held_by(ip, i)
        &&& self.state() is Closed ==> forall|i: int|
            0 <= i < self.services().len() ==> (#[trigger] self.services()[i]).state().terminal()
    }

    /// The answer to the request to add a service called `id`.
    pub open spec fn add_reply(self, id: Seq<char>) -> Result<u32, NetworkError> {
        if !(self.state() is Open) {
            Err(NetworkError::NotOpen)
        } else if id.len() == 0 {
            Err(NetworkError::EmptyServiceId)
        } else if self.has_service(id) {
            Err(NetworkError::DuplicateServiceId)
        } else {
            match self.allocator().lowest_free() {
                Some(ip) => Ok(ip),
                None => Err(NetworkError::PoolExhausted),
            }
        }
    }

    /// The place of the service called `id`. Only meaningful where the
    /// network has such a service.
    pub open spec fn index_of(self, id: Seq<char>) -> int {
        choose|i: int| 0 <= i < self.services().len() && #[trigger] self.services()[i].id() == id
    }

    /// The answer to the request to move the service called `id` to `to`.
    pub open spec fn move_reply(self, id: Seq<char>, to: ServiceState) -> Result<
        (),
        NetworkError,
    > {
        if !self.has_service(id) {
            Err(NetworkError::UnknownService)
        } else if self.services()[self.index_of(id)].state().terminal() {
            Err(NetworkError::ServiceTerminated)
        } else if !self.services()[self.index_of(id)].state().allows(to) {
            Err(NetworkError::TransitionNotAllowed)
        } else {
            Ok(())
        }
    }

    /// The network after the service at `i` has moved to `to`: that service
    /// is in the new state, its address is free again if the state is final,
    /// and nothing else has changed.
    pub open spec fn moved(self, before: NetworkContext, i: int, to: ServiceState) -> bool {
        &&& self.state() == before.state()
        &&& self.subnet() == before.subnet()
        &&& self.services().len() == before.services().len()
        &&& forall|j: int|
            0 <= j < self.services().len() && j != i ==> #[trigger] self.services()[j]
                == before.services()[j]
        &&& self.services()[i].same_service(before.services()[i])
        &&& self.services()[i].state() == to
        &&& self.allocated() == (if to.terminal() {
            before.allocated().remove(before.services()[i].ip())
        } else {
            before.allocated()
        })
    }

    /// The network after an attempt to move the service called `id` to
    /// `to`: the service has moved if the request was in order, and nothing
    /// has changed if it was not.
    pub open spec fn attempted(self, before: NetworkContext, id: Seq<char>, to: ServiceState) -> bool {
        if before.move_reply(id, to) is Ok {
            self.moved(before, before.index_of(id), to)
        } else {
            self.unchanged(before)
        }
    }

    /// The network after the service that `descriptor` declares was added
    /// at the address `ip`: the service is the last, in state
    /// `Provisioning`, its address is in use, and nothing else has changed.
    pub open spec fn added(self, before: NetworkContext, descriptor: ServiceDescriptor, ip: u32) -> bool {
        &&& self.state() == before.state()
        &&& self.subnet() == before.subnet()
        &&& self.allocated() == before.allocated().insert(ip)
        &&& self.services().len() == before.services().len() + 1
        &&& self.services().drop_last() == before.services()
        &&& self.services().last().descriptor() == descriptor
        &&& self.services().last().ip() == ip
        &&& self.services().last().state() == ServiceState::Provisioning
    }

    /// Nothing has changed since `before`.
    pub open spec fn unchanged(self, before: NetworkContext) -> bool {
        &&& self.state() == before.state()
        &&& self.subnet() == before.subnet()
        &&& self.services() == before.services()
        &&& self.allocated() == before.allocated()
    }

    /// Where the services and the addresses in use are those of a network
    /// in which every address in use has a holder, they have one here too.
    proof fn lemma_holders_kept(self, before: NetworkContext)
        requires
            before.wf(),
            self.services() == before.services(),
            self.allocated() == before.allocated(),
        ensures
            forall|ip: u32| #[trigger]
                self.allocated().contains(ip) ==> exists|i: int| self.held_by(ip, i),
    {
        assert forall|ip: u32| #[trigger] self.allocated().contains(ip) implies exists|i: int|
            self.held_by(ip, i) by {
            assert(before.allocated().contains(ip));
            let i = choose|i: int| before.held_by(ip, i);
            assert(self.held_by(ip, i));
        }
    }

    /// An open network over `subnet`, without services.
    pub fn new(subnet: Subnet) -> (n: NetworkContext)
        requires
            subnet.wf(),
        ensures
            n.wf(),
            n.subnet() == subnet,
            n.state() == NetworkState::Open,
            n.services().len() == 0,
            n.allocated() == Set::<u32>::empty(),
    {
        NetworkContext {
            allocator: AddressAllocator::new(subnet),
            services: Vec::new(),
            state: NetworkState::Open,
        }
    }

    /// Where the network stands in its life cycle.
    pub fn get_state(&self) -> (s: NetworkState)
        ensures
            s == self.state(),
    {
        self.state
    }

    /// Whether the network is being closed or is closed: the sign for its
    /// pollers to stop.
    pub fn is_closing(&self) -> (b: bool)
        ensures
            b == !(self.state() is Open),
    {
        match self.state {
            NetworkState::Open => false,
            _ => true,
        }
    }

    /// The network's subnet.
    pub fn get_subnet(&self) -> (s: Subnet)
        ensures
            s == self.subnet(),
    {
        self.allocator.get_subnet()
    }

    /// The number of services that were added.
    pub fn service_count(&self) -> (n: usize)
        ensures
            n == self.services().len(),
    {
        self.services.len()
    }

    /// The place of the service called `id`.
    pub fn find(&self, id: &str) -> (r: Option<usize>)
        ensures
            match r {
                Some(i) => i < self.services().len() && self.services()[i as int].id() == id@,
                None => !self.has_service(id@),
            },
            self.wf() && r is Some ==> r->0 == self.index_of(id@),
    {
        let mut i: usize = 0;
        while i < self.services.len()
            invariant
                i <= self.services.len(),
                forall|j: int| 0 <= j < i ==> (#[trigger] self.services()[j]).id() != id@,
            decreases self.services.len() - i,
        {
            if same_text(self.services[i].get_service_id(), id) {
                proof {
                    if self.wf() {
                        let c = self.index_of(id@);
                        assert(self.services()[i as int].id() == id@);
                        assert(self.services()[c].id() == id@);
                        assert(c == i);
                    }
                }
                return Some(i);
            }
            i = i + 1;
        }
        None
    }

    /// The service at place `i`.
    pub fn service_at(&self, i: usize) -> (s: &ServiceContext)
        requires
            i < self.services().len(),
        ensures
            *s == self.services()[i as int],
    {
        &self.services[i]
    }

    /// The service called `id`.
    pub fn service(&self, id: &str) -> (r: Option<&ServiceContext>)
        ensures
            r is Some <==> self.has_service(id@),
            r matches Some(s) ==> s.id() == id@ && exists|i: int|
                0 <= i < self.services().len() && #[trigger] self.services()[i] == *s,
    {
        match self.find(id) {
            Some(i) => Some(&self.services[i]),
            None => None,
        }
    }

    /// Adds the service that `descriptor` declares: assigns it the lowest
    /// free address and registers it in state `Provisioning`.
    ///
    /// Refused, with the network unchanged, when the network is not open,
    /// the identifier is empty or was used before, or no address is free.
    pub fn add_service(&mut self, descriptor: ServiceDescriptor) -> (r: Result<u32, NetworkError>)
        requires
            old(self).wf(),
        ensures
            final(self).wf(),
            r == old(self).add_reply(descriptor.id@),
            match r {
                Ok(ip) => old(self).allocator().is_lowest_free(ip) && final(self).added(
                    *old(self),
                    descriptor,
                    ip,
                ),
                Err(_) => final(self).unchanged(*old(self)),
            },
            r == Err::<u32, NetworkError>(NetworkError::PoolExhausted) ==> forall|ip: u32|
                !old(self).allocator().is_free(ip),
    {
        match self.state {
            NetworkState::Open => {},
            _ => {
                return Err(NetworkError::NotOpen);
            },
        }
        if descriptor.id.as_str().unicode_len() == 0 {
            return Err(NetworkError::EmptyServiceId);
        }
        if self.find(descriptor.id.as_str()).is_some() {
            return Err(NetworkError::DuplicateServiceId);
        }
        match self.allocator.allocate() {
            Err(_) => {
                proof {
                    self.lemma_holders_kept(*old(self));
                }
                Err(NetworkError::PoolExhausted)
            },
            Ok(ip) => {
                let context = ServiceContext::new(descriptor, ip);
                self.services.push(context);
                proof {
                    let n = old(self).services().len() as int;
                    assert(self.services().drop_last() =~= old(self).services());
                    assert forall|i: int| 0 <= i < n implies #[trigger] self.services()[i] == old(self).services()[i] by {}
                    assert forall|a: u32| #[trigger]
                        self.allocated().contains(a) implies exists|i: int|
                        self.held_by(a, i) by {
                        if a == ip {
                            assert(self.held_by(a, n));
                        } else {
                            assert(old(self).allocated().contains(a));
                            let i = choose|i: int| old(self).held_by(a, i);
                            assert(self.services()[i] == old(self).services()[i]);
                            assert(self.held_by(a, i));
                        }
                    }
                }
                Ok(ip)
            },
        }
    }

    /// Moves the service at `i` to `to`, and frees its address if `to` is
    /// final.
    fn move_to(&mut self, i: usize, to: ServiceState)
        requires
            old(self).wf(),
            i < old(self).services().len(),
            old(self).services()[i as int].state().allows(to),
        ensures
            final(self).wf(),
            final(self).moved(*old(self), i as int, to),
    {
        let ip = self.services[i].get_ip();
        let _moved = self.services[i].advance(to);
        if to.is_terminal() {
            let _freed = self.allocator.release(ip);
        }
        proof {
            let n = old(self).services().len() as int;
            assert(old(self).live_at(i as int));
            assert(!(old(self).state() is Closed));
            assert forall|j: int| 0 <= j < n && j != i implies #[trigger] self.services()[j]
                == old(self).services()[j] by {}
            assert forall|a: u32| #[trigger] self.allocated().contains(a) implies exists|j: int|
                self.held_by(a, j) by {
                assert(old(self).allocated().contains(a));
                let j = choose|j: int| old(self).held_by(a, j);
                if j != i {
                    assert(self.services()[j] == old(self).services()[j]);
                }
                assert(self.held_by(a, j));
            }
            assert forall|j: int| 0 <= j < n implies (#[trigger] self.services()[j]).wf()
                && self.services()[j].id().len() > 0 && self.subnet().is_usable(
                self.services()[j].ip(),
            ) && (self.live_at(j) ==> self.allocated().contains(self.services()[j].ip())) by {
                if j != i {
                    assert(self.services()[j] == old(self).services()[j]);
                    if self.live_at(j) {
                        assert(old(self).live_at(j));
                        if j < i {
                            assert(old(self).services()[j].ip() != old(self).services()[i as int].ip());
                        } else {
                            assert(old(self).services()[i as int].ip() != old(self).services()[j].ip());
                        }
                    }
                }
            }
        }
    }

    /// The common part of the four requests that move a service.
    fn move_service(&mut self, id: &str, to: ServiceState) -> (r: Result<(), NetworkError>)
        requires
            old(self).wf(),
        ensures
            final(self).wf(),
            r == old(self).move_reply(id@, to),
            match r {
                Ok(()) => final(self).moved(*old(self), old(self).index_of(id@), to),
                Err(_) => final(self).unchanged(*old(self)),
            },
    {
        match self.find(id) {
            None => Err(NetworkError::UnknownService),
            Some(i) => {
                let state = self.services[i].get_state();
                if state.is_terminal() {
                    Err(NetworkError::ServiceTerminated)
                } else if !state.can_become(to) {
                    Err(NetworkError::TransitionNotAllowed)
                } else {
                    self.move_to(i, to);
                    Ok(())
                }
            },
        }
    }

    /// The container of the service called `id` has started: the service
    /// moves from `Provisioning` to `Starting`.
    pub fn service_started(&mut self, id: &str) -> (r: Result<(), NetworkError>)
        requires
            old(self).wf(),
        ensures
            final(self).wf(),
            r == old(self).move_reply(id@, ServiceState::Starting),
            match r {
                Ok(()) => final(self).moved(
                    *old(self),
                    old(self).index_of(id@),
                    ServiceState::Starting,
                ),
                Err(_) => final(self).unchanged(*old(self)),
            },
    {
        self.move_service(id, ServiceState::Starting)
    }

    /// The service called `id` has answered its availability check: it moves
    /// from `Starting` to `Ready`.
    pub fn service_ready(&mut self, id: &str) -> (r: Result<(), NetworkError>)
        requires
            old(self).wf(),
        ensures
            final(self).wf(),
            r == old(self).move_reply(id@, ServiceState::Ready),
            match r {
                Ok(()) => final(self).moved(
                    *old(self),
                    old(self).index_of(id@),
                    ServiceState::Ready,
                ),
                Err(_) => final(self).unchanged(*old(self)),
            },
    {
        self.move_service(id, ServiceState::Ready)
    }

    /// The service called `id` could not be started or did not become ready:
    /// it moves to `Failed` and its address is free again.
    pub fn service_failed(&mut self, id: &str) -> (r: Result<(), NetworkError>)
        requires
            old(self).wf(),
        ensures
            final(self).wf(),
            r == old(self).move_reply(id@, ServiceState::Failed),
            match r {
                Ok(()) => final(self).moved(
                    *old(self),
                    old(self).index_of(id@),
                    ServiceState::Failed,
                ),
                Err(_) => final(self).unchanged(*old(self)),
            },
    {
        self.move_service(id, ServiceState::Failed)
    }

    /// Removes the service called `id`: it ends as `Stopped` if it was ready
    /// and as `Failed` if it was not, and its address is free again. Returns
    /// the state in which it ended.
    pub fn remove_service(&mut self, id: &str) -> (r: Result<ServiceState, NetworkError>)
        requires
            old(self).wf(),
        ensures
            final(self).wf(),
            r is Ok <==> old(self).has_service(id@) && old(self).live_at(old(self).index_of(id@)),
            match r {
                Ok(end) => {
                    &&& end == old(self).services()[old(self).index_of(id@)].state().shut_down()
                    &&& final(self).moved(*old(self), old(self).index_of(id@), end)
                },
                Err(e) => {
                    &&& final(self).unchanged(*old(self))
                    &&& e == NetworkError::UnknownService <==> !old(self).has_service(id@)
                    &&& e == NetworkError::ServiceTerminated <==> old(self).has_service(id@)
                        && !old(self).live_at(old(self).index_of(id@))
                },
            },
    {
        match self.find(id) {
            None => Err(NetworkError::UnknownService),
            Some(i) => {
                let state = self.services[i].get_state();
                if state.is_terminal() {
                    Err(NetworkError::ServiceTerminated)
                } else {
                    let end = state.after_shut_down();
                    self.move_to(i, end);
                    Ok(end)
                }
            },
        }
    }

    /// Begins to close the network: an open network becomes `Closing`.
    /// Returns the identifiers of the services to stop, the one added last
    /// first.
    pub fn begin_close(&mut self) -> (plan: Vec<String>)
        requires
            old(self).wf(),
        ensures
            final(self).wf(),
            final(self).state() == (if old(self).state() is Open {
                NetworkState::Closing
            } else {
                old(self).state()
            }),
            final(self).subnet() == old(self).subnet(),
            final(self).services() == old(self).services(),
            final(self).allocated() == old(self).allocated(),
            texts(plan@) == teardown_order(old(self).services()),
    {
        match self.state {
            NetworkState::Open => {
                self.state = NetworkState::Closing;
            },
            _ => {},
        }
        let mut plan: Vec<String> = Vec::new();
        let mut i: usize = self.services.len();
        assert(self.services().skip(i as int) =~= Seq::empty());
        assert(texts(plan@) =~= teardown_order(self.services().skip(i as int)));
        while i > 0
            invariant
                i <= self.services.len(),
                self.allocator == old(self).allocator,
                self.services == old(self).services,
                texts(plan@) == teardown_order(self.services().skip(i as int)),
            decreases i,
        {
            i = i - 1;
            let ghost rest = self.services().skip(i as int);
            assert(rest.len() > 0 && rest[0] == self.services()[i as int]);
            assert(rest.drop_first() =~= self.services().skip(i + 1));
            if !self.services[i].get_state().is_terminal() {
                let ghost before = plan@;
                plan.push(self.services[i].get_descriptor().id.clone());
                assert(texts(plan@) =~= texts(before).push(self.services()[i as int].id()));
            }
        }
        proof {
            assert(self.services().skip(0) =~= self.services());
            self.lemma_holders_kept(*old(self));
        }
        plan
    }

    /// Closes the network. Every service that has not ended ends now, as
    /// `Stopped` if it was ready and as `Failed` if it was not; every address
    /// is free again; the network is `Closed`. Closing a closed network
    /// changes nothing.
    pub fn close(&mut self)
        requires
            old(self).wf(),
        ensures
            final(self).wf(),
            final(self).state() == NetworkState::Closed,
            final(self).subnet() == old(self).subnet(),
            final(self).allocated() == Set::<u32>::empty(),
            final(self).services().len() == old(self).services().len(),
            forall|i: int|
                0 <= i < old(self).services().len() ==> (#[trigger] final(self).services()[i]).same_service(
                    old(self).services()[i],
                ) && final(self).services()[i].state() == old(self).services()[i].state().shut_down(),
    {
        let mut i: usize = self.services.len();
        while i > 0
            invariant
                i <= self.services.len(),
                self.wf(),
                self.subnet() == old(self).subnet(),
                self.services().len() == old(self).services().len(),
                forall|j: int|
                    0 <= j < i ==> #[trigger] self.services()[j] == old(self).services()[j],
                forall|j: int|
                    i <= j < self.services().len() ==> (#[trigger] self.services()[j]).same_service(
                        old(self).services()[j],
                    ) && self.services()[j].state() == old(self).services()[j].state().shut_down(),
            decreases i,
        {
            i = i - 1;
            let state = self.services[i].get_state();
            if !state.is_terminal() {
                let ghost before = *self;
                self.move_to(i, state.after_shut_down());
                assert forall|j: int| 0 <= j < i implies #[trigger] self.services()[j] == old(self).services()[j] by {
                    assert(self.services()[j] == before.services()[j]);
                }
                assert forall|j: int| i < j < self.services().len() implies (
                #[trigger] self.services()[j]).same_service(old(self).services()[j])
                    && self.services()[j].state() == old(self).services()[j].state().shut_down() by {
                    assert(self.services()[j] == before.services()[j]);
                }
            }
        }
        let ghost before = *self;
        self.state = NetworkState::Closed;
        proof {
            assert forall|j: int| 0 <= j < self.services().len() implies (
            #[trigger] self.services()[j]).state().terminal() by {}
            assert forall|a: u32| !self.allocated().contains(a) by {
                if self.allocated().contains(a) {
                    assert(before.allocated().contains(a));
                    let j = choose|j: int| before.held_by(a, j);
                    assert(before.services()[j] == self.services()[j]);
                    assert(self.services()[j].state().terminal());
                }
            }
            assert(self.allocated() =~= Set::<u32>::empty());
        }
    }
}

/// A service is found under its identifier at its own place, and nowhere
/// else.
pub proof fn lemma_index_of(network: NetworkContext, i: int)
    requires
        network.wf(),
        0 <= i < network.services().len(),
    ensures
        network.has_service(network.services()[i].id()),
        network.index_of(network.services()[i].id()) == i,
{
    let id = network.services()[i].id();
    let c = network.index_of(id);
    assert(network.services()[i].id() == id);
    assert(network.services()[c].id() == id);
    if c < i {
        assert(network.services()[c].id() != network.services()[i].id());
    } else if i < c {
        assert(network.services()[i].id() != network.services()[c].id());
    }
}

/// A service that has not ended shares its address with no service that was
/// added after it. So no two services that have not ended share an address;
/// only the address of a service that has ended can be that of a later one.
pub proof fn lemma_addresses_unique(network: NetworkContext, i: int, j: int)
    requires
        network.wf(),
        0 <= i < j < network.services().len(),
        network.live_at(i),
    ensures
        network.services()[i].ip() != network.services()[j].ip(),
{
    assert(network.services()[i].ip() != network.services()[j].ip());
}

/// Every service's address lies in the network's subnet and is none of the
/// reserved addresses.
pub proof fn lemma_addresses_contained(network: NetworkContext, i: int)
    requires
        network.wf(),
        0 <= i < network.services().len(),
    ensures
        network.subnet().contains(network.services()[i].ip()),
        !network.subnet().is_reserved(network.services()[i].ip()),
{
    assert(network.subnet().is_usable(network.services()[i].ip()));
}

/// In a closed network every service has ended and no address is in use.
pub proof fn lemma_closed_network_is_quiet(network: NetworkContext)
    requires
        network.wf(),
        network.state() is Closed,
    ensures
        forall|i: int|
            0 <= i < network.services().len() ==> (#[trigger] network.services()[i]).state().terminal(),
        network.allocated() == Set::<u32>::empty(),
        teardown_order(network.services()) == Seq::<Seq<char>>::empty(),
{
    assert forall|a: u32| !network.allocated().contains(a) by {
        if network.allocated().contains(a) {
            let j = choose|j: int| network.held_by(a, j);
            assert(network.services()[j].state().terminal());
        }
    }
    assert(network.allocated() =~= Set::<u32>::empty());
    lemma_no_teardown_when_ended(network.services());
}

/// Where every service has ended, nothing is left to stop.
pub proof fn lemma_no_teardown_when_ended(services: Seq<ServiceContext>)
    requires
        forall|i: int| 0 <= i < services.len() ==> (#[trigger] services[i]).state().terminal(),
    ensures
        teardown_order(services) == Seq::<Seq<char>>::empty(),
    decreases services.len(),
{
    if services.len() > 0 {
        assert(services[0].state().terminal());
        assert forall|i: int| 0 <= i < services.drop_first().len() implies (
        #[trigger] services.drop_first()[i]).state().terminal() by {
            assert(services.drop_first()[i] == services[i + 1]);
        }
        lemma_no_teardown_when_ended(services.drop_first());
    }
}

} // verus!
