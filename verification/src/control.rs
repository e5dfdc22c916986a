//! The control loop as an event-driven state machine: it drains poller
//! events into the candidate pool, selects a target at random, gates the
//! engagement behind an authorization pulse, and reacts to each engagement
//! outcome by its retry class. The surrounding program performs the blocking
//! work each returned action names and feeds the next event back in.

use vstd::prelude::*;

use crate::missilesystem::{retry_class, BanResult, ErrorState};
use crate::radar::{contains_name, name_seq, name_set, RadarCommand};

verus! {

/// Relies on rand's Rng::gen_range on the thread-local generator: an index
/// below the bound. Which index comes back is random; nothing more is
/// assumed of it.
#[verifier::external_body]
fn pick_index(len: usize) -> (i: usize)
    requires
        len > 0,
    ensures
        i < len,
{
    rand::Rng::gen_range(&mut rand::thread_rng(), 0..len)
}

/// A pool with every occurrence of one name removed.
pub open spec fn without_name(pool: Seq<Seq<char>>, name: Seq<char>) -> Seq<Seq<char>> {
    pool.filter(|n: Seq<char>| n != name)
}

proof fn lemma_without_name_push(pool: Seq<Seq<char>>, name: Seq<char>, x: Seq<char>)
    ensures
        x != name ==> without_name(pool.push(x), name) == without_name(pool, name).push(x),
        x == name ==> without_name(pool.push(x), name) == without_name(pool, name),
{
    broadcast use Seq::lemma_filter_push;

}

/// Where the control loop stands: draining events, holding a lock on a
/// target while waiting for authorization, waiting on an engagement against
/// a target, or done.
pub enum Phase {
    Scanning,
    Locked(String),
    Engaging(String),
    Stopped,
}

/// What the control loop learns at one step: a drained channel message, an
/// empty channel, the authorization wait returning (with the cancellation
/// flag as observed right after), an engagement outcome, or a transport
/// failure of the engagement call itself.
pub enum ControlEvent {
    Radar(RadarCommand),
    ChannelEmpty,
    PulseReturned(u128, bool),
    Engaged(BanResult),
    EngageError,
}

/// What the control loop asks its driver to do next: poll the channel
/// again, announce a lock and block for the authorization pulse, submit the
/// engagement, set the cancellation flag and stop, or just stop.
pub enum ControlAction {
    Drain,
    AwaitPulse(String),
    Fire(String, u128),
    SetFlagAndStop,
    Stop,
}

/// The state the control loop owns: the candidate pool, the skip set, the
/// count of confirmed hits, and where in its cycle it stands.
pub struct ControlState {
    pub bogeys: Vec<String>,
    pub skippable: Vec<String>,
    pub splash_count: u64,
    pub phase: Phase,
}

impl ControlState {
    /// The names believed to be live targets, duplicates and order kept.
    pub open spec fn pool(&self) -> Seq<Seq<char>> {
        name_seq(self.bogeys@)
    }

    /// The names engagement is known to be futile for, for the rest of the
    /// run.
    pub open spec fn skip_names(&self) -> Set<Seq<char>> {
        name_set(self.skippable@)
    }

    /// Which events the driving protocol may feed in at this phase.
    pub open spec fn accepts(&self, ev: ControlEvent) -> bool {
        match ev {
            ControlEvent::Radar(_) => self.phase is Scanning,
            ControlEvent::ChannelEmpty => self.phase is Scanning,
            ControlEvent::PulseReturned(_, _) => self.phase is Locked,
            ControlEvent::Engaged(_) => self.phase is Engaging,
            ControlEvent::EngageError => self.phase is Engaging,
        }
    }

    /// An empty pool and skip set, no hits yet, ready to drain.
    pub fn new() -> (s: ControlState)
        ensures
            s.pool() == Seq::<Seq<char>>::empty(),
            s.skip_names() == Set::<Seq<char>>::empty(),
            s.splash_count == 0,
            s.phase is Scanning,
    {
        let s = ControlState {
            bogeys: Vec::new(),
            skippable: Vec::new(),
            splash_count: 0,
            phase: Phase::Scanning,
        };
        proof {
            assert(s.pool() =~= Seq::<Seq<char>>::empty());
            assert(s.skip_names() =~= Set::<Seq<char>>::empty());
        }
        s
    }

    /// Remove every occurrence of a departed name from the pool.
    fn remove_bogey(&mut self, name: &String)
        ensures
            final(self).pool() == without_name(old(self).pool(), name@),
            final(self).skippable == old(self).skippable,
            final(self).splash_count == old(self).splash_count,
            final(self).phase == old(self).phase,
    {
        let mut kept: Vec<String> = Vec::new();
        let mut i: usize = 0;
        proof {
            assert(old(self).pool().take(0) =~= Seq::<Seq<char>>::empty());
            assert(name_seq(kept@) =~= without_name(old(self).pool().take(0), name@));
        }
        while i < self.bogeys.len()
            invariant
                i <= self.bogeys@.len(),
                self.bogeys == old(self).bogeys,
                self.skippable == old(self).skippable,
                self.splash_count == old(self).splash_count,
                self.phase == old(self).phase,
                name_seq(kept@) == without_name(old(self).pool().take(i as int), name@),
            decreases self.bogeys@.len() - i,
        {
            let candidate = self.bogeys[i].clone();
            if !candidate.eq(name) {
                kept.push(candidate);
            }
            proof {
                broadcast use Seq::lemma_push_map_commute;

                let pool = old(self).pool();
                assert(pool.take(i + 1) =~= pool.take(i as int).push(pool[i as int]));
                assert(pool[i as int] == self.bogeys@[i as int]@);
                lemma_without_name_push(pool.take(i as int), name@, pool[i as int]);
                assert(name_seq(kept@) =~= without_name(pool.take(i + 1), name@));
            }
            i = i + 1;
        }
        proof {
            assert(old(self).pool().take(old(self).bogeys@.len() as int) =~= old(self).pool());
        }
        self.bogeys = kept;
    }

    /// Put a name into the skip set; a name already there stays once.
    fn add_skip(&mut self, name: String)
        ensures
            final(self).skip_names() == old(self).skip_names().insert(name@),
            final(self).bogeys == old(self).bogeys,
            final(self).splash_count == old(self).splash_count,
            final(self).phase == old(self).phase,
    {
        if !contains_name(&self.skippable, &name) {
            self.skippable.push(name);
            proof {
                assert(name_seq(self.skippable@) =~= name_seq(old(self).skippable@).push(name@));
                assert forall|x: Seq<char>| self.skip_names().contains(x) implies old(
                    self,
                ).skip_names().insert(name@).contains(x) by {
                    if name_seq(self.skippable@).contains(x) {
                        let k = choose|k: int|
                            0 <= k < name_seq(self.skippable@).len() && name_seq(
                                self.skippable@,
                            )[k] == x;
                        if k < name_seq(old(self).skippable@).len() {
                            assert(name_seq(old(self).skippable@)[k] == x);
                        }
                    }
                }
                assert forall|x: Seq<char>| old(self).skip_names().insert(name@).contains(
                    x,
                ) implies self.skip_names().contains(x) by {
                    if x == name@ {
                        assert(name_seq(self.skippable@).last() == name@);
                    } else {
                        let k = choose|k: int|
                            0 <= k < name_seq(old(self).skippable@).len() && name_seq(
                                old(self).skippable@,
                            )[k] == x;
                        assert(name_seq(self.skippable@)[k] == x);
                    }
                }
                assert(self.skip_names() =~= old(self).skip_names().insert(name@));
            }
        } else {
            proof {
                assert(self.skip_names() =~= old(self).skip_names().insert(name@));
            }
        }
    }

    /// One step of the control loop: consume one event, update the owned
    /// state, and name the next thing to do. The skip set never shrinks; a
    /// selection landing on the skip set changes nothing and asks only for
    /// another drain; a pulse that returns under a set cancellation flag
    /// stops without firing; an engagement outcome acts by its retry class.
    pub fn step(&mut self, ev: ControlEvent) -> (act: ControlAction)
        requires
            old(self).accepts(ev),
            old(self).splash_count < u64::MAX,
        ensures
            old(self).skip_names().subset_of(final(self).skip_names()),
            match ev {
                ControlEvent::Radar(cmd) => match cmd {
                    RadarCommand::Inbound(n) => final(self).pool() == old(self).pool().push(n@)
                        && final(self).skippable == old(self).skippable
                        && final(self).splash_count == old(self).splash_count
                        && final(self).phase is Scanning && act is Drain,
                    RadarCommand::Seperate(n) => final(self).pool() == without_name(
                        old(self).pool(),
                        n@,
                    ) && final(self).skippable == old(self).skippable
                        && final(self).splash_count == old(self).splash_count
                        && final(self).phase is Scanning && act is Drain,
                    RadarCommand::HoldFire => final(self).bogeys == old(self).bogeys
                        && final(self).skippable == old(self).skippable
                        && final(self).splash_count == old(self).splash_count
                        && final(self).phase is Stopped && act is Stop,
                },
                ControlEvent::ChannelEmpty => final(self).bogeys == old(self).bogeys
                    && final(self).skippable == old(self).skippable
                    && final(self).splash_count == old(self).splash_count
                    && (act is Drain || act is AwaitPulse)
                    && (act is Drain ==> final(self).phase is Scanning && (old(self).pool().len()
                    == 0 || exists|t: Seq<char>|
                    old(self).pool().contains(t) && old(self).skip_names().contains(t)))
                    && (act matches ControlAction::AwaitPulse(t) ==> (old(self).pool().contains(
                        t@,
                    ) && !old(self).skip_names().contains(t@) && (final(self).phase matches
                    Phase::Locked(l) && l@ == t@)))
                    && (old(self).pool().len() == 0 ==> act is Drain),
                ControlEvent::PulseReturned(pulse, cancelled) => final(self).bogeys == old(self).bogeys && final(self).skippable == old(self).skippable
                    && final(self).splash_count == old(self).splash_count
                    && (cancelled ==> final(self).phase is Stopped && act is Stop)
                    && (!cancelled ==> (old(self).phase matches Phase::Locked(t) ==> final(self).phase == Phase::Engaging(t) && act == ControlAction::Fire(t, pulse))),
                ControlEvent::Engaged(r) => old(self).phase matches Phase::Engaging(t)
                    ==> final(self).bogeys == old(self).bogeys && match r {
                    BanResult::Success => final(self).skip_names() == old(self).skip_names().insert(t@) && final(self).splash_count == old(self).splash_count
                        + 1 && final(self).phase is Scanning && act is Drain,
                    BanResult::Failure(f) => match retry_class(f) {
                        ErrorState::Skip => final(self).skip_names() == old(self).skip_names().insert(t@) && final(self).splash_count == old(self).splash_count && final(self).phase is Scanning && act is Drain,
                        ErrorState::TryAgain => final(self).skippable == old(self).skippable
                            && final(self).splash_count == old(self).splash_count && final(self).phase is Scanning && act is Drain,
                        ErrorState::Abort => final(self).skippable == old(self).skippable
                            && final(self).splash_count == old(self).splash_count && final(self).phase is Stopped && act is SetFlagAndStop,
                    },
                },
                ControlEvent::EngageError => final(self).bogeys == old(self).bogeys && final(self).skippable == old(self).skippable && final(self).splash_count == old(self).splash_count && final(self).phase is Scanning && act is Drain,
            },
    {
        match ev {
            ControlEvent::Radar(cmd) => match cmd {
                RadarCommand::Inbound(n) => {
                    self.bogeys.push(n);
                    proof {
                        assert(name_seq(self.bogeys@) =~= name_seq(old(self).bogeys@).push(n@));
                    }
                    ControlAction::Drain
                },
                RadarCommand::Seperate(n) => {
                    self.remove_bogey(&n);
                    ControlAction::Drain
                },
                RadarCommand::HoldFire => {
                    self.phase = Phase::Stopped;
                    ControlAction::Stop
                },
            },
            ControlEvent::ChannelEmpty => {
                if self.bogeys.len() == 0 {
                    ControlAction::Drain
                } else {
                    let idx = pick_index(self.bogeys.len());
                    let target = self.bogeys[idx].clone();
                    assert(old(self).pool()[idx as int] == target@);
                    if contains_name(&self.skippable, &target) {
                        proof {
                            assert(old(self).pool().contains(target@));
                            assert(old(self).skip_names().contains(target@));
                        }
                        ControlAction::Drain
                    } else {
                        self.phase = Phase::Locked(target.clone());
                        ControlAction::AwaitPulse(target)
                    }
                }
            },
            ControlEvent::PulseReturned(pulse, cancelled) => {
                if cancelled {
                    self.phase = Phase::Stopped;
                    ControlAction::Stop
                } else {
                    let target: String;
                    match &self.phase {
                        Phase::Locked(t) => {
                            target = t.clone();
                        },
                        _ => {
                            // the protocol admits this event in the Locked phase only
                            assert(false);
                            target = String::new();
                        },
                    }
                    self.phase = Phase::Engaging(target.clone());
                    ControlAction::Fire(target, pulse)
                }
            },
            ControlEvent::Engaged(r) => {
                let target: String;
                match &self.phase {
                    Phase::Engaging(t) => {
                        target = t.clone();
                    },
                    _ => {
                        // the protocol admits this event in the Engaging phase only
                        assert(false);
                        target = String::new();
                    },
                }
                match r {
                    BanResult::Success => {
                        self.add_skip(target);
                        self.splash_count = self.splash_count + 1;
                        self.phase = Phase::Scanning;
                        ControlAction::Drain
                    },
                    BanResult::Failure(f) => match f.try_again_later() {
                        ErrorState::Skip => {
                            self.add_skip(target);
                            self.phase = Phase::Scanning;
                            ControlAction::Drain
                        },
                        ErrorState::TryAgain => {
                            self.phase = Phase::Scanning;
                            ControlAction::Drain
                        },
                        ErrorState::Abort => {
                            self.phase = Phase::Stopped;
                            ControlAction::SetFlagAndStop
                        },
                    },
                }
            },
            ControlEvent::EngageError => {
                self.phase = Phase::Scanning;
                ControlAction::Drain
            },
        }
    }
}

} // verus!
