//! The launch of one service: from the request to add it to a network until
//! it is ready, or has failed and its container is stopped.
//!
//! The launch decides what to do next; its caller starts and stops the
//! container, runs the availability check and sleeps. A service that was
//! started and does not become ready has its container stopped before the
//! launch reports the failure.

use crate::network::{lemma_index_of, NetworkContext, NetworkError};
use crate::outcome::{network_fault, readiness_fault, Fault};
use crate::readiness::{PollAction, PollVerdict, PollerConfig, Probe, ReadinessPoller};
use crate::service::{ServiceDescriptor, ServiceState};
use vstd::prelude::*;
use vstd::string::*;

verus! {

/// What the caller of a launch does next.
#[derive(Clone, Copy, Debug, PartialEq, Eq)]
pub enum LaunchStep {
    /// Start the container at this address, and report what came of it.
    Start(u32),
    /// Run the availability check and report its answer.
    Check,
    /// Sleep for so many milliseconds and report back.
    Sleep(u64),
    /// Stop the container and report back.
    Stop,
    /// Nothing: the launch is over, with the service's address or with the
    /// reason for which it failed.
    Done(Result<u32, Fault>),
}

/// Where a launch stands.
#[derive(Clone, Copy, Debug, PartialEq, Eq)]
pub enum LaunchPhase {
    /// The container is being started.
    Starting,
    /// The service is being polled.
    Polling,
    /// The service has failed for this reason and its container is being
    /// stopped.
    Stopping(Fault),
    /// The launch is over.
    Finished(Result<u32, Fault>),
}

/// The state to which the end of polling moves the service, if `action`
/// ends it: `Ready` when the service is available, `Failed` otherwise.
pub open spec fn poll_target(action: PollAction) -> Option<ServiceState> {
    match action {
        PollAction::Finish(PollVerdict::Ready) => Some(ServiceState::Ready),
        PollAction::Finish(_) => Some(ServiceState::Failed),
        _ => None,
    }
}

/// The launch of one service.
pub struct ServiceLaunch {
    id: String,
    ip: u32,
    config: PollerConfig,
    poller: Option<ReadinessPoller>,
    phase: LaunchPhase,
}

impl ServiceLaunch {
    /// The identifier of the service.
    pub closed spec fn id(self) -> Seq<char> {
        self.id@
    }

    /// The address of the service. Only meaningful where the network gave
    /// it one.
    pub closed spec fn ip(self) -> u32 {
        self.ip
    }

    /// How the service is polled.
    pub closed spec fn config(self) -> PollerConfig {
        self.config
    }

    /// The poller, once polling has begun.
    pub closed spec fn poller(self) -> Option<ReadinessPoller> {
        self.poller
    }

    /// Where the launch stands.
    pub closed spec fn phase(self) -> LaunchPhase {
        self.phase
    }

    /// The launch's invariant: while it polls, its poller has no verdict.
    pub open spec fn wf(self) -> bool {
        &&& self.config().wf()
        &&& self.phase() is Polling ==> (self.poller() matches Some(p) && p.config()
            == self.config() && p.verdict() is None)
    }

    /// The launch is that of `before`.
    pub open spec fn same_launch(self, before: ServiceLaunch) -> bool {
        &&& self.id() == before.id()
        &&& self.ip() == before.ip()
        &&& self.config() == before.config()
    }

    /// What the caller does next where no event has come: the step that the
    /// phase stands for.
    pub open spec fn pending(self) -> LaunchStep {
        match self.phase() {
            LaunchPhase::Starting => LaunchStep::Start(self.ip()),
            LaunchPhase::Polling => LaunchStep::Check,
            LaunchPhase::Stopping(_) => LaunchStep::Stop,
            LaunchPhase::Finished(r) => LaunchStep::Done(r),
        }
    }

    /// Where the launch goes on what the poller says, and what to do then.
    /// A service that is ready ends the launch, unless the network did not
    /// let it become ready; a service that is not has its container stopped
    /// first.
    pub open spec fn poll_result(self, action: PollAction, ready_ok: bool) -> (
        LaunchPhase,
        LaunchStep,
    ) {
        match action {
            PollAction::Check => (LaunchPhase::Polling, LaunchStep::Check),
            PollAction::Sleep(ms) => (LaunchPhase::Polling, LaunchStep::Sleep(ms)),
            PollAction::Finish(verdict) => match readiness_fault(verdict) {
                Some(fault) => (LaunchPhase::Stopping(fault), LaunchStep::Stop),
                None => if ready_ok {
                    (LaunchPhase::Finished(Ok(self.ip())), LaunchStep::Done(Ok(self.ip())))
                } else {
                    (LaunchPhase::Stopping(Fault::ServiceRejected), LaunchStep::Stop)
                },
            },
        }
    }

    /// Where the launch stands.
    pub fn get_phase(&self) -> (p: LaunchPhase)
        ensures
            p == self.phase(),
    {
        self.phase
    }

    /// The identifier of the service.
    pub fn get_service_id(&self) -> (id: &str)
        ensures
            id@ == self.id(),
    {
        self.id.as_str()
    }

    /// What the caller does next where no event has come.
    pub fn next_step(&self) -> (step: LaunchStep)
        ensures
            step == self.pending(),
    {
        match self.phase {
            LaunchPhase::Starting => LaunchStep::Start(self.ip),
            LaunchPhase::Polling => LaunchStep::Check,
            LaunchPhase::Stopping(_) => LaunchStep::Stop,
            LaunchPhase::Finished(r) => LaunchStep::Done(r),
        }
    }

    /// Begins the launch of the service that `descriptor` declares: adds it
    /// to `network`. If the network takes it, the container is to start at
    /// the address that the network assigned; if not, the launch is over.
    pub fn begin(network: &mut NetworkContext, descriptor: ServiceDescriptor, config: PollerConfig) -> (r: (
        ServiceLaunch,
        LaunchStep,
    ))
        requires
            old(network).wf(),
            config.wf(),
        ensures
            final(network).wf(),
            r.0.wf(),
            r.0.id() == descriptor.id@,
            r.0.config() == config,
            r.1 == r.0.pending(),
            match old(network).add_reply(descriptor.id@) {
                Ok(ip) => r.0.phase() == LaunchPhase::Starting && r.0.ip() == ip && final(network).added(*old(network), descriptor, ip),
                Err(e) => r.0.phase() == LaunchPhase::Finished(Err(network_fault(e))) && final(network).unchanged(*old(network)),
            },
    {
        let id = descriptor.id.clone();
        match network.add_service(descriptor) {
            Ok(ip) => (
                ServiceLaunch { id, ip, config, poller: None, phase: LaunchPhase::Starting },
                LaunchStep::Start(ip),
            ),
            Err(e) => {
                let fault = Fault::of_network(e);
                (
                    ServiceLaunch {
                        id,
                        ip: 0,
                        config,
                        poller: None,
                        phase: LaunchPhase::Finished(Err(fault)),
                    },
                    LaunchStep::Done(Err(fault)),
                )
            },
        }
    }

    /// Acts on what the poller says.
    fn conclude(&mut self, network: &mut NetworkContext, action: PollAction) -> (step: LaunchStep)
        requires
            old(network).wf(),
            old(self).config().wf(),
            (old(self).poller() matches Some(p) && p.config() == old(self).config() && p.verdict()
                == ReadinessPoller::verdict_of(action)),
        ensures
            final(network).wf(),
            final(self).wf(),
            final(self).same_launch(*old(self)),
            final(self).poller() == old(self).poller(),
            (final(self).phase(), step) == old(self).poll_result(
                action,
                old(network).move_reply(old(self).id(), ServiceState::Ready) is Ok,
            ),
            match poll_target(action) {
                Some(to) => final(network).attempted(*old(network), old(self).id(), to),
                None => final(network).unchanged(*old(network)),
            },
    {
        match action {
            PollAction::Check => {
                self.phase = LaunchPhase::Polling;
                LaunchStep::Check
            },
            PollAction::Sleep(ms) => {
                self.phase = LaunchPhase::Polling;
                LaunchStep::Sleep(ms)
            },
            PollAction::Finish(verdict) => match Fault::of_readiness(verdict) {
                Some(fault) => {
                    let _moved = network.service_failed(self.id.as_str());
                    self.phase = LaunchPhase::Stopping(fault);
                    LaunchStep::Stop
                },
                None => match network.service_ready(self.id.as_str()) {
                    Ok(()) => {
                        self.phase = LaunchPhase::Finished(Ok(self.ip));
                        LaunchStep::Done(Ok(self.ip))
                    },
                    Err(_) => {
                        self.phase = LaunchPhase::Stopping(Fault::ServiceRejected);
                        LaunchStep::Stop
                    },
                },
            },
        }
    }

    /// The driver has answered the request to start the container.
    ///
    /// While the container is being started: if it could not be started,
    /// the service has failed and the launch is over. If it was started but
    /// the network does not know the service as one to start, the container
    /// is to stop. Otherwise the service is `Starting` and polling begins at
    /// `now_ms`: the check is due, unless the network is closing or the
    /// service has no time at all, in which case the service has failed and
    /// the container is to stop. In any other phase nothing changes.
    pub fn container_started(
        &mut self,
        network: &mut NetworkContext,
        now_ms: u64,
        result: Result<(), Fault>,
    ) -> (step: LaunchStep)
        requires
            old(self).wf(),
            old(network).wf(),
        ensures
            final(self).wf(),
            final(network).wf(),
            final(self).same_launch(*old(self)),
            step == final(self).pending(),
            !(old(self).phase() is Starting) ==> final(self).phase() == old(self).phase() && final(network).unchanged(*old(network)),
            old(self).phase() is Starting ==> (match result {
                Err(fault) => final(self).phase() == LaunchPhase::Finished(Err(fault)) && final(network).attempted(*old(network), old(self).id(), ServiceState::Failed),
                Ok(()) => if old(network).move_reply(old(self).id(), ServiceState::Starting) is Err {
                    final(self).phase() == LaunchPhase::Stopping(Fault::ServiceRejected) && final(network).unchanged(*old(network))
                } else {
                    let due = old(self).config().when_due(
                        now_ms,
                        now_ms,
                        !(old(network).state() is Open),
                    );
                    &&& final(self).phase() == old(self).poll_result(due, true).0
                    &&& final(self).poller() matches Some(p) && p.started() == now_ms
                    &&& final(network).moved(
                        *old(network),
                        old(network).index_of(old(self).id()),
                        if due is Check {
                            ServiceState::Starting
                        } else {
                            ServiceState::Failed
                        },
                    )
                },
            }),
    {
        match self.phase {
            LaunchPhase::Starting => {},
            _ => {
                return self.next_step();
            },
        }
        match result {
            Err(fault) => {
                let _moved = network.service_failed(self.id.as_str());
                self.phase = LaunchPhase::Finished(Err(fault));
                LaunchStep::Done(Err(fault))
            },
            Ok(()) => {
                match network.service_started(self.id.as_str()) {
                    Err(_) => {
                        self.phase = LaunchPhase::Stopping(Fault::ServiceRejected);
                        LaunchStep::Stop
                    },
                    Ok(()) => {
                        let ghost i = old(network).index_of(old(self).id());
                        let ghost mid = *network;
                        proof {
                            lemma_index_of(mid, i);
                        }
                        let (poller, action) = ReadinessPoller::start(
                            self.config,
                            now_ms,
                            network.is_closing(),
                        );
                        self.poller = Some(poller);
                        let step = self.conclude(network, action);
                        proof {
                            if !(action is Check) {
                                assert(mid.move_reply(self.id(), ServiceState::Failed) is Ok);
                                assert(network.moved(mid, i, ServiceState::Failed));
                                assert(network.allocated() =~= old(network).allocated().remove(
                                    old(network).services()[i].ip(),
                                ));
                            }
                        }
                        step
                    },
                }
            },
        }
    }

    /// An availability check has answered.
    ///
    /// While the service is polled, the poller decides: the service is
    /// ready, and the launch is over; or the check is to repeat after a
    /// sleep; or the service has failed, and the container is to stop. In
    /// any other phase nothing changes.
    pub fn probe_answered(&mut self, network: &mut NetworkContext, now_ms: u64, probe: Probe) -> (step:
        LaunchStep)
        requires
            old(self).wf(),
            old(network).wf(),
        ensures
            final(self).wf(),
            final(network).wf(),
            final(self).same_launch(*old(self)),
            !(old(self).phase() is Polling) ==> step == old(self).pending() && final(self).phase()
                == old(self).phase() && final(network).unchanged(*old(network)),
            old(self).phase() is Polling ==> {
                let action = old(self).config().when_answered(
                    old(self).poller()->0.started(),
                    now_ms,
                    !(old(network).state() is Open),
                    probe,
                );
                &&& (final(self).phase(), step) == old(self).poll_result(
                    action,
                    old(network).move_reply(old(self).id(), ServiceState::Ready) is Ok,
                )
                &&& final(self).poller() matches Some(p) && p.started() == old(self).poller()->0.started()
                &&& match poll_target(action) {
                    Some(to) => final(network).attempted(*old(network), old(self).id(), to),
                    None => final(network).unchanged(*old(network)),
                }
            },
    {
        match self.phase {
            LaunchPhase::Polling => {},
            _ => {
                return self.next_step();
            },
        }
        match self.poller {
            None => self.next_step(),
            Some(mut poller) => {
                let action = poller.on_probe(now_ms, network.is_closing(), probe);
                self.poller = Some(poller);
                self.conclude(network, action)
            },
        }
    }

    /// The sleep between two availability checks is over.
    ///
    /// While the service is polled, the poller decides: the check is due,
    /// or the service has failed and the container is to stop. In any other
    /// phase nothing changes.
    pub fn woke(&mut self, network: &mut NetworkContext, now_ms: u64) -> (step: LaunchStep)
        requires
            old(self).wf(),
            old(network).wf(),
        ensures
            final(self).wf(),
            final(network).wf(),
            final(self).same_launch(*old(self)),
            !(old(self).phase() is Polling) ==> step == old(self).pending() && final(self).phase()
                == old(self).phase() && final(network).unchanged(*old(network)),
            old(self).phase() is Polling ==> {
                let action = old(self).config().when_due(
                    old(self).poller()->0.started(),
                    now_ms,
                    !(old(network).state() is Open),
                );
                &&& (final(self).phase(), step) == old(self).poll_result(action, true)
                &&& final(self).poller() matches Some(p) && p.started() == old(self).poller()->0.started()
                &&& match poll_target(action) {
                    Some(to) => final(network).attempted(*old(network), old(self).id(), to),
                    None => final(network).unchanged(*old(network)),
                }
            },
    {
        match self.phase {
            LaunchPhase::Polling => {},
            _ => {
                return self.next_step();
            },
        }
        match self.poller {
            None => self.next_step(),
            Some(mut poller) => {
                let action = poller.on_wake(now_ms, network.is_closing());
                self.poller = Some(poller);
                self.conclude(network, action)
            },
        }
    }

    /// The container is stopped.
    ///
    /// While the container was being stopped, the launch is over now, with
    /// the reason for which the service failed. In any other phase nothing
    /// changes.
    pub fn container_stopped(&mut self) -> (step: LaunchStep)
        requires
            old(self).wf(),
        ensures
            final(self).wf(),
            final(self).same_launch(*old(self)),
            step == final(self).pending(),
            final(self).phase() == (match old(self).phase() {
                LaunchPhase::Stopping(fault) => LaunchPhase::Finished(Err(fault)),
                other => other,
            }),
    {
        match self.phase {
            LaunchPhase::Stopping(fault) => {
                self.phase = LaunchPhase::Finished(Err(fault));
                LaunchStep::Done(Err(fault))
            },
            _ => self.next_step(),
        }
    }
}

/// A launch reports a failure of a started service only after its container
/// was stopped: no step of the poller leads to the end of the launch with a
/// failure, only to the stop.
pub proof fn lemma_stop_before_failure(launch: ServiceLaunch, action: PollAction, ready_ok: bool)
    ensures
        launch.poll_result(action, ready_ok).0 matches LaunchPhase::Finished(r) ==> r is Ok
            && action == PollAction::Finish(PollVerdict::Ready),
        launch.poll_result(action, ready_ok).1 matches LaunchStep::Done(r) ==> r is Ok,
        action is Finish && !(action == PollAction::Finish(PollVerdict::Ready) && ready_ok)
            ==> launch.poll_result(action, ready_ok).1 == LaunchStep::Stop,
{
}

} // verus!
