//! Who runs a contract, and whether it is frozen: the same in all five.
//!
//! The admin hands over in two steps: a successor is proposed, and has to
//! accept under its own signature. The admin can freeze the contract for the
//! length of an incident. A frozen contract refuses its writes before it asks
//! for any authorization; reads, renewals, the handover and upgrades go on.

use crate::host::{accept, event, refuse, view_opt, Address, Context, ContextModel, Effect, EffectModel,
    Effects, Hash32, Outcome, Value, ValueModel};
use vstd::prelude::*;

verus! {

/// Why a request to the admin's side of a contract is refused.
#[derive(Clone, Copy, Debug, PartialEq, Eq, Structural)]
pub enum GovernanceError {
    AlreadyInitialized,
    NotInitialized,
    NoAdminProposalPending,
    /// `pause` was asked of a contract that is frozen.
    AlreadyPaused,
    /// `unpause` was asked of a contract that is not frozen.
    NotPaused,
}

/// The admin, a proposed successor, and the freeze.
#[derive(Clone, Debug)]
pub struct Governance {
    pub admin: Option<Address>,
    pub proposed: Option<Address>,
    pub paused: bool,
}

#[verifier::ext_equal]
pub struct GovernanceModel {
    pub admin: Option<Seq<char>>,
    pub proposed: Option<Seq<char>>,
    pub paused: bool,
}

impl View for Governance {
    type V = GovernanceModel;

    open spec fn view(&self) -> GovernanceModel {
        GovernanceModel {
            admin: view_opt(self.admin),
            proposed: view_opt(self.proposed),
            paused: self.paused,
        }
    }
}

pub type GovernanceOutcome = Outcome<GovernanceModel, (), GovernanceError>;

/// The event of a freeze or of its end.
pub open spec fn pause_event(name: Seq<char>, admin: Seq<char>, timestamp: u64) -> EffectModel {
    event("pause"@, name, seq![ValueModel::Account(admin), ValueModel::U64(timestamp)])
}

/// The event of an upgrade.
pub open spec fn upgrade_event(hash: Seq<u8>, sequence: u32) -> EffectModel {
    event("contract"@, "upgraded"@, seq![ValueModel::Digest(hash), ValueModel::U32(sequence)])
}

impl GovernanceModel {
    /// Before anyone initialized the contract.
    pub open spec fn fresh() -> Self {
        GovernanceModel { admin: None, proposed: None, paused: false }
    }

    /// The authorization that an admin's request asks for, once there is one.
    pub open spec fn admin_asked(self) -> Seq<EffectModel> {
        match self.admin {
            Some(admin) => seq![EffectModel::Authorize(admin)],
            None => seq![],
        }
    }

    pub open spec fn initialize(self, admin: Seq<char>) -> GovernanceOutcome {
        if self.admin is Some {
            refuse(self, seq![], GovernanceError::AlreadyInitialized)
        } else {
            accept(
                GovernanceModel { admin: Some(admin), ..self },
                seq![EffectModel::Authorize(admin)],
                (),
            )
        }
    }

    pub open spec fn propose(self, successor: Seq<char>) -> GovernanceOutcome {
        if self.admin is None {
            refuse(self, seq![], GovernanceError::NotInitialized)
        } else {
            accept(
                GovernanceModel { proposed: Some(successor), ..self },
                self.admin_asked(),
                (),
            )
        }
    }

    pub open spec fn accept_proposal(self) -> GovernanceOutcome {
        match self.proposed {
            None => refuse(self, seq![], GovernanceError::NoAdminProposalPending),
            Some(successor) => accept(
                GovernanceModel { admin: Some(successor), proposed: None, ..self },
                seq![EffectModel::Authorize(successor)],
                (),
            ),
        }
    }

    pub open spec fn pause(self, ctx: ContextModel) -> GovernanceOutcome {
        match self.admin {
            None => refuse(self, seq![], GovernanceError::NotInitialized),
            Some(admin) => if self.paused {
                refuse(self, self.admin_asked(), GovernanceError::AlreadyPaused)
            } else {
                accept(
                    GovernanceModel { paused: true, ..self },
                    self.admin_asked() + seq![pause_event("paused"@, admin, ctx.timestamp)],
                    (),
                )
            },
        }
    }

    pub open spec fn unpause(self, ctx: ContextModel) -> GovernanceOutcome {
        match self.admin {
            None => refuse(self, seq![], GovernanceError::NotInitialized),
            Some(admin) => if !self.paused {
                refuse(self, self.admin_asked(), GovernanceError::NotPaused)
            } else {
                accept(
                    GovernanceModel { paused: false, ..self },
                    self.admin_asked() + seq![pause_event("unpaused"@, admin, ctx.timestamp)],
                    (),
                )
            },
        }
    }

    pub open spec fn upgrade(self, ctx: ContextModel, hash: Seq<u8>) -> GovernanceOutcome {
        if self.admin is None {
            refuse(self, seq![], GovernanceError::NotInitialized)
        } else {
            accept(
                self,
                self.admin_asked() + seq![
                    EffectModel::Upgrade(hash),
                    upgrade_event(hash, ctx.sequence),
                ],
                (),
            )
        }
    }
}

/// A handover takes two steps: until the successor accepts, the admin stays;
/// then the successor is the admin, and the proposal is used up.
pub proof fn law_handover_takes_two_steps(s: GovernanceModel, successor: Seq<char>)
    requires
        s.admin is Some,
    ensures
        ({
            let proposed = s.propose(successor);
            let accepted = proposed.state.accept_proposal();
            &&& proposed.answer is Ok
            &&& proposed.state.admin == s.admin
            &&& proposed.effects == seq![EffectModel::Authorize(s.admin->0)]
            &&& accepted.answer is Ok
            &&& accepted.state == (GovernanceModel {
                admin: Some(successor),
                proposed: None,
                paused: s.paused,
            })
            &&& accepted.effects == seq![EffectModel::Authorize(successor)]
            &&& accepted.state.accept_proposal().answer == Err::<(), GovernanceError>(
                GovernanceError::NoAdminProposalPending,
            )
        }),
{
}

/// There is a first admin once, and always one from then on.
pub proof fn law_initialized_once(s: GovernanceModel, admin: Seq<char>, again: Seq<char>)
    requires
        s.admin is None,
    ensures
        s.initialize(admin).answer is Ok,
        s.initialize(admin).state.admin == Some(admin),
        s.initialize(admin).state.initialize(again).answer == Err::<(), GovernanceError>(
            GovernanceError::AlreadyInitialized,
        ),
{
}

/// Nobody runs a new contract, and it is not frozen.
pub proof fn law_starts_without_an_admin()
    ensures
        GovernanceModel::fresh().admin is None,
        GovernanceModel::fresh().proposed is None,
        !GovernanceModel::fresh().paused,
{
}

/// The view has the admin, the successor and the freeze.
pub proof fn law_governance_view(x: Governance)
    ensures
        x@.admin == view_opt(x.admin),
        x@.proposed == view_opt(x.proposed),
        x@.paused == x.paused,
{
}

/// Whoever runs a contract is asked to authorize what only they may do.
pub proof fn law_admin_asked(s: GovernanceModel)
    ensures
        s.admin is None ==> s.admin_asked().len() == 0,
        s.admin is Some ==> s.admin_asked() == seq![EffectModel::Authorize(s.admin->0)],
{
}

/// The first admin signs, and changes nothing but who runs the contract; where
/// there is one already, nothing happens at all.
pub proof fn law_initialize(s: GovernanceModel, admin: Seq<char>)
    ensures
        ({
            let outcome = s.initialize(admin);
            if s.admin is None {
                &&& outcome.answer is Ok
                &&& outcome.state.admin == Some(admin)
                &&& outcome.state.proposed == s.proposed
                &&& outcome.state.paused == s.paused
                &&& outcome.effects == seq![EffectModel::Authorize(admin)]
            } else {
                &&& outcome.answer == Err::<(), GovernanceError>(
                    GovernanceError::AlreadyInitialized,
                )
                &&& outcome.state == s
                &&& outcome.effects.len() == 0
            }
        }),
{
}

/// The admin signs a proposal, which names the successor and changes nothing
/// else.
pub proof fn law_propose(s: GovernanceModel, successor: Seq<char>)
    ensures
        ({
            let outcome = s.propose(successor);
            if s.admin is Some {
                &&& outcome.answer is Ok
                &&& outcome.state.admin == s.admin
                &&& outcome.state.proposed == Some(successor)
                &&& outcome.state.paused == s.paused
                &&& outcome.effects == seq![EffectModel::Authorize(s.admin->0)]
            } else {
                &&& outcome.answer == Err::<(), GovernanceError>(GovernanceError::NotInitialized)
                &&& outcome.state == s
                &&& outcome.effects.len() == 0
            }
        }),
{
}

/// The successor signs, runs the contract from then on, and is no longer a
/// successor.
pub proof fn law_accept_proposal(s: GovernanceModel)
    ensures
        ({
            let outcome = s.accept_proposal();
            if s.proposed is Some {
                &&& outcome.answer is Ok
                &&& outcome.state.admin == s.proposed
                &&& outcome.state.proposed is None
                &&& outcome.state.paused == s.paused
                &&& outcome.effects == seq![EffectModel::Authorize(s.proposed->0)]
            } else {
                &&& outcome.answer == Err::<(), GovernanceError>(
                    GovernanceError::NoAdminProposalPending,
                )
                &&& outcome.state == s
                &&& outcome.effects.len() == 0
            }
        }),
{
}

/// Only the admin sets and lifts a freeze, each once in turn, and says so with
/// the time.
pub proof fn law_pause(s: GovernanceModel, ctx: ContextModel)
    ensures
        ({
            let frozen = s.pause(ctx);
            let lifted = s.unpause(ctx);
            let told = seq![ValueModel::Account(s.admin->0), ValueModel::U64(ctx.timestamp)];
            if s.admin is None {
                &&& frozen.answer == Err::<(), GovernanceError>(GovernanceError::NotInitialized)
                &&& lifted.answer == Err::<(), GovernanceError>(GovernanceError::NotInitialized)
                &&& frozen.effects.len() == 0 && lifted.effects.len() == 0
                &&& frozen.state == s && lifted.state == s
            } else {
                &&& s.paused ==> frozen.answer == Err::<(), GovernanceError>(
                    GovernanceError::AlreadyPaused,
                ) && frozen.effects == seq![EffectModel::Authorize(s.admin->0)]
                &&& !s.paused ==> lifted.answer == Err::<(), GovernanceError>(
                    GovernanceError::NotPaused,
                ) && lifted.effects == seq![EffectModel::Authorize(s.admin->0)]
                &&& !s.paused ==> frozen.answer is Ok && frozen.effects == seq![
                    EffectModel::Authorize(s.admin->0),
                    EffectModel::Publish { group: "pause"@, name: "paused"@, data: told },
                ]
                &&& s.paused ==> lifted.answer is Ok && lifted.effects == seq![
                    EffectModel::Authorize(s.admin->0),
                    EffectModel::Publish { group: "pause"@, name: "unpaused"@, data: told },
                ]
                &&& frozen.state.paused && !lifted.state.paused
                &&& frozen.state.admin == s.admin && lifted.state.admin == s.admin
                &&& frozen.state.proposed == s.proposed && lifted.state.proposed == s.proposed
            }
        }),
{
}

/// The admin signs an upgrade, to the code of the hash that is given, and says
/// so with the ledger.
pub proof fn law_upgrade(s: GovernanceModel, ctx: ContextModel, hash: Seq<u8>)
    ensures
        ({
            let outcome = s.upgrade(ctx, hash);
            &&& outcome.state == s
            &&& s.admin is None ==> outcome.answer == Err::<(), GovernanceError>(
                GovernanceError::NotInitialized,
            ) && outcome.effects.len() == 0
            &&& s.admin is Some ==> outcome.answer is Ok && outcome.effects == seq![
                EffectModel::Authorize(s.admin->0),
                EffectModel::Upgrade(hash),
                EffectModel::Publish {
                    group: "contract"@,
                    name: "upgraded"@,
                    data: seq![ValueModel::Digest(hash), ValueModel::U32(ctx.sequence)],
                },
            ]
        }),
{
}

impl Governance {
    /// Before anyone initialized the contract.
    pub fn new() -> (r: Self)
        ensures
            r@ == GovernanceModel::fresh(),
    {
        Governance { admin: None, proposed: None, paused: false }
    }

    /// Asks for the admin's authorization.
    pub fn authorize_admin(&self, fx: &mut Effects) -> (r: Result<(), GovernanceError>)
        ensures
            r == (if self@.admin is Some {
                Ok::<(), GovernanceError>(())
            } else {
                Err(GovernanceError::NotInitialized)
            }),
            final(fx)@ == old(fx)@ + self@.admin_asked(),
    {
        match &self.admin {
            Some(admin) => {
                fx.authorize(admin);
                Ok(())
            },
            None => Err(GovernanceError::NotInitialized),
        }
    }

    /// Makes `admin` the first admin.
    pub fn initialize(&mut self, fx: &mut Effects, admin: Address) -> (r: Result<
        (),
        GovernanceError,
    >)
        ensures
            r == old(self)@.initialize(admin@).answer,
            final(self)@ == old(self)@.initialize(admin@).state,
            final(fx)@ == old(fx)@ + old(self)@.initialize(admin@).effects,
    {
        if self.admin.is_some() {
            return Err(GovernanceError::AlreadyInitialized);
        }
        fx.authorize(&admin);
        self.admin = Some(admin);
        Ok(())
    }

    /// The admin names a successor.
    pub fn propose(&mut self, fx: &mut Effects, successor: Address) -> (r: Result<
        (),
        GovernanceError,
    >)
        ensures
            r == old(self)@.propose(successor@).answer,
            final(self)@ == old(self)@.propose(successor@).state,
            final(fx)@ == old(fx)@ + old(self)@.propose(successor@).effects,
    {
        match self.authorize_admin(fx) {
            Ok(_) => {},
            Err(e) => {
                return Err(e);
            },
        }
        self.proposed = Some(successor);
        Ok(())
    }

    /// The successor accepts, and becomes the admin.
    pub fn accept_proposal(&mut self, fx: &mut Effects) -> (r: Result<(), GovernanceError>)
        ensures
            r == old(self)@.accept_proposal().answer,
            final(self)@ == old(self)@.accept_proposal().state,
            final(fx)@ == old(fx)@ + old(self)@.accept_proposal().effects,
    {
        match &self.proposed {
            None => {
                return Err(GovernanceError::NoAdminProposalPending);
            },
            Some(successor) => {
                fx.authorize(successor);
                self.admin = Some(successor.clone());
            },
        }
        self.proposed = None;
        Ok(())
    }

    /// Freezes the contract.
    pub fn pause(&mut self, ctx: &Context, fx: &mut Effects) -> (r: Result<(), GovernanceError>)
        ensures
            r == old(self)@.pause(ctx@).answer,
            final(self)@ == old(self)@.pause(ctx@).state,
            final(fx)@ == old(fx)@ + old(self)@.pause(ctx@).effects,
    {
        match &self.admin {
            None => {
                return Err(GovernanceError::NotInitialized);
            },
            Some(admin) => {
                fx.authorize(admin);
                if self.paused {
                    return Err(GovernanceError::AlreadyPaused);
                }
                fx.publish_two(
                    "pause",
                    "paused",
                    Value::Account(admin.clone()),
                    Value::U64(ctx.timestamp),
                );
            },
        }
        self.paused = true;
        Ok(())
    }

    /// Ends the freeze.
    pub fn unpause(&mut self, ctx: &Context, fx: &mut Effects) -> (r: Result<(), GovernanceError>)
        ensures
            r == old(self)@.unpause(ctx@).answer,
            final(self)@ == old(self)@.unpause(ctx@).state,
            final(fx)@ == old(fx)@ + old(self)@.unpause(ctx@).effects,
    {
        match &self.admin {
            None => {
                return Err(GovernanceError::NotInitialized);
            },
            Some(admin) => {
                fx.authorize(admin);
                if !self.paused {
                    return Err(GovernanceError::NotPaused);
                }
                fx.publish_two(
                    "pause",
                    "unpaused",
                    Value::Account(admin.clone()),
                    Value::U64(ctx.timestamp),
                );
            },
        }
        self.paused = false;
        Ok(())
    }

    /// Replaces the contract's code.
    pub fn upgrade(&self, ctx: &Context, fx: &mut Effects, hash: Hash32) -> (r: Result<
        (),
        GovernanceError,
    >)
        ensures
            r == self@.upgrade(ctx@, hash@).answer,
            final(fx)@ == old(fx)@ + self@.upgrade(ctx@, hash@).effects,
    {
        match self.authorize_admin(fx) {
            Ok(_) => {},
            Err(e) => {
                return Err(e);
            },
        }
        fx.add(Effect::Upgrade(hash));
        fx.publish_two(
            "contract",
            "upgraded",
            Value::Digest(hash),
            Value::U32(ctx.sequence),
        );
        Ok(())
    }
}

} // verus!
