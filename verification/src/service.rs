//! Services: what a test declares of one, the handle that the core keeps for
//! it, and the states that the handle moves through.

use crate::text::{address_string, dotted_quad, same_text};
use vstd::prelude::*;
use vstd::string::*;

verus! {

/// What the core asks of every service. A test's own service types build
/// their richer clients on top of it.
pub trait Service {
    /// The identifier that the test gave the service.
    fn get_service_id(&self) -> &str;

    /// The address of the service inside its test's network.
    fn get_ip_address(&self) -> &str;

    /// Whether the service is ready to receive test traffic.
    fn is_available(&self) -> bool;
}

/// Where a service stands in its life cycle.
#[derive(Clone, Copy, Debug, PartialEq, Eq)]
pub enum ServiceState {
    /// An address is assigned, the container is not started yet.
    Provisioning,
    /// The container is started and is being polled for readiness.
    Starting,
    /// The service answered its availability check.
    Ready,
    /// The service was stopped after it had been ready.
    Stopped,
    /// The service failed, or was given up before it was ready.
    Failed,
}

/// Why a change of state was refused.
#[derive(Clone, Copy, Debug, PartialEq, Eq)]
pub enum TransitionError {
    /// The service is `Stopped` or `Failed`, and stays so.
    Terminal,
    /// The life cycle has no step from the current state to the one asked for.
    NotAllowed,
}

impl ServiceState {
    /// `Stopped` and `Failed` are final.
    pub open spec fn terminal(self) -> bool {
        self is Stopped || self is Failed
    }

    /// The steps of the life cycle: `Provisioning` to `Starting` to `Ready`
    /// to `Stopped`, and from each of the first three to `Failed`.
    pub open spec fn allows(self, to: ServiceState) -> bool {
        match (self, to) {
            (ServiceState::Provisioning, ServiceState::Starting) => true,
            (ServiceState::Starting, ServiceState::Ready) => true,
            (ServiceState::Ready, ServiceState::Stopped) => true,
            (ServiceState::Provisioning, ServiceState::Failed) => true,
            (ServiceState::Starting, ServiceState::Failed) => true,
            (ServiceState::Ready, ServiceState::Failed) => true,
            _ => false,
        }
    }

    /// The state in which a service ends when it is shut down from this one:
    /// `Stopped` if it was ready, `Failed` if it never got there.
    pub open spec fn shut_down(self) -> ServiceState {
        match self {
            ServiceState::Ready => ServiceState::Stopped,
            ServiceState::Stopped => ServiceState::Stopped,
            _ => ServiceState::Failed,
        }
    }

    /// Whether the state is final.
    pub fn is_terminal(&self) -> (b: bool)
        ensures
            b == self.terminal(),
    {
        match self {
            ServiceState::Stopped => true,
            ServiceState::Failed => true,
            _ => false,
        }
    }

    /// Whether the life cycle has a step from this state to `to`.
    pub fn can_become(&self, to: ServiceState) -> (b: bool)
        ensures
            b == self.allows(to),
    {
        match (self, to) {
            (ServiceState::Provisioning, ServiceState::Starting) => true,
            (ServiceState::Starting, ServiceState::Ready) => true,
            (ServiceState::Ready, ServiceState::Stopped) => true,
            (ServiceState::Provisioning, ServiceState::Failed) => true,
            (ServiceState::Starting, ServiceState::Failed) => true,
            (ServiceState::Ready, ServiceState::Failed) => true,
            _ => false,
        }
    }

    /// The state that shutting down leads to.
    pub fn after_shut_down(&self) -> (s: ServiceState)
        ensures
            s == self.shut_down(),
    {
        match self {
            ServiceState::Ready => ServiceState::Stopped,
            ServiceState::Stopped => ServiceState::Stopped,
            _ => ServiceState::Failed,
        }
    }
}

/// No step leaves a final state, and every state that is not final can fail.
pub proof fn lemma_terminal_states_are_final(from: ServiceState, to: ServiceState)
    ensures
        from.terminal() ==> !from.allows(to),
        !from.terminal() ==> from.allows(ServiceState::Failed),
        !from.terminal() ==> from.allows(from.shut_down()) && from.shut_down().terminal(),
{
}

/// A port that a service exposes, under the name by which tests ask for it.
#[derive(Clone, Debug, PartialEq, Eq)]
pub struct PortBinding {
    pub name: String,
    pub number: u16,
}

/// A file to place inside the container before it starts.
#[derive(Clone, Debug, PartialEq, Eq)]
pub struct FileMount {
    pub source: String,
    pub target: String,
}

/// What a test declares of a service it needs.
#[derive(Clone, Debug, PartialEq, Eq)]
pub struct ServiceDescriptor {
    /// The test's name for the service: not empty, and used once per network.
    pub id: String,
    /// The image to run.
    pub image: String,
    /// The ports that the service exposes.
    pub ports: Vec<PortBinding>,
    /// The command to start the container with, in place of the image's own.
    pub command: Option<Vec<String>>,
    /// The files to place inside the container.
    pub files: Vec<FileMount>,
}

/// The first port of `ports` that is called `name`, if there is one.
pub open spec fn port_named(ports: Seq<PortBinding>, name: Seq<char>) -> Option<u16>
    decreases ports.len(),
{
    if ports.len() == 0 {
        None
    } else if ports[0].name@ == name {
        Some(ports[0].number)
    } else {
        port_named(ports.drop_first(), name)
    }
}

/// The core's handle for one service of a network.
pub struct ServiceContext {
    descriptor: ServiceDescriptor,
    ip: u32,
    ip_text: String,
    state: ServiceState,
}

impl ServiceContext {
    /// What the test declared of the service.
    pub closed spec fn descriptor(self) -> ServiceDescriptor {
        self.descriptor
    }

    /// The service's identifier.
    pub open spec fn id(self) -> Seq<char> {
        self.descriptor().id@
    }

    /// The address assigned to the service.
    pub closed spec fn ip(self) -> u32 {
        self.ip
    }

    /// Where the service stands in its life cycle.
    pub closed spec fn state(self) -> ServiceState {
        self.state
    }

    /// The handle holds its address in dotted form too.
    pub closed spec fn wf(self) -> bool {
        self.ip_text@ == dotted_quad(self.ip)
    }

    /// `other` is this handle in another state.
    pub open spec fn same_service(self, other: ServiceContext) -> bool {
        &&& self.descriptor() == other.descriptor()
        &&& self.ip() == other.ip()
    }

    /// The handle for the service that `descriptor` declares, at `ip`.
    pub fn new(descriptor: ServiceDescriptor, ip: u32) -> (c: ServiceContext)
        ensures
            c.wf(),
            c.descriptor() == descriptor,
            c.ip() == ip,
            c.state() == ServiceState::Provisioning,
    {
        ServiceContext {
            descriptor,
            ip,
            ip_text: address_string(ip),
            state: ServiceState::Provisioning,
        }
    }

    /// The service's identifier.
    pub fn get_service_id(&self) -> (id: &str)
        ensures
            id@ == self.id(),
    {
        self.descriptor.id.as_str()
    }

    /// The service's address in dotted form.
    pub fn get_ip_address(&self) -> (text: &str)
        requires
            self.wf(),
        ensures
            text@ == dotted_quad(self.ip()),
    {
        self.ip_text.as_str()
    }

    /// The service's address as a number.
    pub fn get_ip(&self) -> (ip: u32)
        ensures
            ip == self.ip(),
    {
        self.ip
    }

    /// Where the service stands in its life cycle.
    pub fn get_state(&self) -> (s: ServiceState)
        ensures
            s == self.state(),
    {
        self.state
    }

    /// What the test declared of the service.
    pub fn get_descriptor(&self) -> (d: &ServiceDescriptor)
        ensures
            *d == self.descriptor(),
    {
        &self.descriptor
    }

    /// The number of the port that the service exposes under `name`.
    pub fn get_port(&self, name: &str) -> (r: Option<u16>)
        ensures
            r == port_named(self.descriptor().ports@, name@),
    {
        let ports = &self.descriptor.ports;
        let mut i: usize = 0;
        assert(ports@.skip(0) =~= ports@);
        while i < ports.len()
            invariant
                i <= ports.len(),
                ports@ == self.descriptor().ports@,
                port_named(ports@, name@) == port_named(ports@.skip(i as int), name@),
            decreases ports.len() - i,
        {
            let ghost rest = ports@.skip(i as int);
            assert(rest.len() > 0 && rest[0] == ports@[i as int]);
            assert(rest.drop_first() =~= ports@.skip(i + 1));
            if same_text(ports[i].name.as_str(), name) {
                assert(port_named(rest, name@) == Some(ports@[i as int].number));
                return Some(ports[i].number);
            }
            assert(port_named(rest, name@) == port_named(rest.drop_first(), name@));
            i = i + 1;
        }
        assert(ports@.skip(i as int).len() == 0);
        None
    }

    /// Moves the service to the state `to`.
    ///
    /// The step is taken exactly when the life cycle allows it; otherwise the
    /// handle stays as it is.
    pub fn advance(&mut self, to: ServiceState) -> (r: Result<(), TransitionError>)
        ensures
            final(self).same_service(*old(self)),
            final(self).wf() == old(self).wf(),
            r is Ok <==> old(self).state().allows(to),
            r is Ok ==> final(self).state() == to,
            r matches Err(e) ==> final(self).state() == old(self).state() && (e
                == TransitionError::Terminal <==> old(self).state().terminal()),
    {
        if self.state.is_terminal() {
            Err(TransitionError::Terminal)
        } else if self.state.can_become(to) {
            self.state = to;
            Ok(())
        } else {
            Err(TransitionError::NotAllowed)
        }
    }
}

} // verus!
