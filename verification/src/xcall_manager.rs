//! The protocol verifier: checks that inbound governance calls arrive through
//! the trusted relay set, and carries the single-proposer removal workflow.
use vstd::prelude::*;
use crate::strings::str_eq;
use crate::xcall_manager_msg::{
    spec_decode_configure_protocols, spec_decode_execute, spec_decode_migrate,
    spec_decode_update_admin, spec_gov_method, views_of, ConfigureProtocols, ConfigureProtocolsV,
    Execute, ExecuteV, Migrate, MigrateV, ProtocolConfig, ProtocolConfigV, UpdateAdmin,
    UpdateAdminV,
};
use vstd::string::StringExecFns;

verus! {

/// Everything the protocol verifier can refuse.
#[derive(Debug, Clone, PartialEq, Eq)]
pub enum ContractError {
    /// Only the stored proposer may manage removal proposals.
    OnlyProposer,
    /// Inbound calls must name the governance address as their origin.
    OnlyGovernance,
    /// Only the router contract may deliver inbound calls.
    OnlyXCall,
    /// The governance payload names no recognized method.
    InvalidMethod,
    /// No protocol configuration has ever been stored.
    NetworkNotConfigured,
    /// The supplied protocols do not match the trusted set.
    InvalidProtocol,
    /// The governance payload is not a readable wire list.
    DecoderError,
}

/// What an accepted governance call asks the surrounding contract to do.
#[derive(Debug, Clone, PartialEq, Eq)]
pub enum GovAction {
    ConfigureProtocols(ConfigureProtocols),
    Execute(Execute),
    Migrate(Migrate),
    UpdateAdmin(UpdateAdmin),
}

pub ghost enum GovActionV {
    ConfigureProtocols(ConfigureProtocolsV),
    Execute(ExecuteV),
    Migrate(MigrateV),
    UpdateAdmin(UpdateAdminV),
}

impl View for GovAction {
    type V = GovActionV;

    open spec fn view(&self) -> GovActionV {
        match self {
            GovAction::ConfigureProtocols(m) => GovActionV::ConfigureProtocols(m@),
            GovAction::Execute(m) => GovActionV::Execute(m@),
            GovAction::Migrate(m) => GovActionV::Migrate(m@),
            GovAction::UpdateAdmin(m) => GovActionV::UpdateAdmin(m@),
        }
    }
}

/// The verifier's persistent state.
#[derive(Debug, Clone, PartialEq, Eq)]
pub struct XcallManager {
    /// The router contract trusted to deliver inbound calls.
    pub xcall: String,
    /// The remote governance network address trusted to originate them.
    pub icon_governance: String,
    /// The single identity allowed to manage removal proposals.
    pub proposer: String,
    /// The trusted relay set; none before the first configuration.
    pub protocols: Option<ProtocolConfig>,
    /// At most one protocol proposed for removal.
    pub proposed_removal: Option<String>,
}

pub ghost struct XcallManagerV {
    pub xcall: Seq<char>,
    pub icon_governance: Seq<char>,
    pub proposer: Seq<char>,
    pub protocols: Option<ProtocolConfigV>,
    pub proposed_removal: Option<Seq<char>>,
}

impl View for XcallManager {
    type V = XcallManagerV;

    open spec fn view(&self) -> XcallManagerV {
        XcallManagerV {
            xcall: self.xcall@,
            icon_governance: self.icon_governance@,
            proposer: self.proposer@,
            protocols: match self.protocols {
                Some(ref p) => Some(p@),
                None => None,
            },
            proposed_removal: match self.proposed_removal {
                Some(ref p) => Some(p@),
                None => None,
            },
        }
    }
}

// ---------------------------------------------------------------------------
// Set equality of protocol lists
// ---------------------------------------------------------------------------

/// Protocol lists compare as unordered sets.
pub open spec fn protocol_set(xs: Seq<Seq<char>>) -> Set<Seq<char>> {
    xs.to_set()
}

proof fn lemma_protocol_set_contains(xs: Seq<String>, e: Seq<char>)
    ensures
        protocol_set(views_of(xs)).contains(e) <==> (exists|i: int|
            0 <= i < xs.len() && #[trigger] xs[i]@ == e),
{
    let vs = views_of(xs);
    if protocol_set(vs).contains(e) {
        assert(vs.contains(e));
        let i = choose|i: int| 0 <= i < vs.len() && vs[i] == e;
        assert(xs[i]@ == e);
    }
    if exists|i: int| 0 <= i < xs.len() && #[trigger] xs[i]@ == e {
        let i = choose|i: int| 0 <= i < xs.len() && #[trigger] xs[i]@ == e;
        assert(vs[i] == e);
        assert(vs.contains(e));
    }
}

/// Whether some element of `v` reads `x`.
fn vec_contains(v: &Vec<String>, x: &String) -> (r: bool)
    ensures
        r == protocol_set(views_of(v@)).contains(x@),
{
    let mut i: usize = 0;
    while i < v.len()
        invariant
            i <= v@.len(),
            forall|j: int| 0 <= j < i ==> v@[j]@ != x@,
        decreases v@.len() - i,
    {
        if str_eq(v[i].as_str(), x.as_str()) {
            proof {
                lemma_protocol_set_contains(v@, x@);
            }
            return true;
        }
        i = i + 1;
    }
    proof {
        lemma_protocol_set_contains(v@, x@);
    }
    false
}

/// Whether two protocol lists hold the same set of identifiers.
pub fn array_eq(a: &Vec<String>, b: &Vec<String>) -> (r: bool)
    ensures
        r == (protocol_set(views_of(a@)) == protocol_set(views_of(b@))),
{
    let mut i: usize = 0;
    while i < a.len()
        invariant
            i <= a@.len(),
            forall|j: int| 0 <= j < i ==> protocol_set(views_of(b@)).contains(#[trigger] a@[j]@),
        decreases a@.len() - i,
    {
        if !vec_contains(b, &a[i]) {
            proof {
                assert(protocol_set(views_of(a@)).contains(a@[i as int]@)) by {
                    lemma_protocol_set_contains(a@, a@[i as int]@);
                }
            }
            return false;
        }
        i = i + 1;
    }
    let mut k: usize = 0;
    while k < b.len()
        invariant
            k <= b@.len(),
            forall|j: int| 0 <= j < a@.len() ==> protocol_set(views_of(b@)).contains(
                #[trigger] a@[j]@,
            ),
            forall|j: int| 0 <= j < k ==> protocol_set(views_of(a@)).contains(#[trigger] b@[j]@),
        decreases b@.len() - k,
    {
        if !vec_contains(a, &b[k]) {
            proof {
                assert(protocol_set(views_of(b@)).contains(b@[k as int]@)) by {
                    lemma_protocol_set_contains(b@, b@[k as int]@);
                }
            }
            return false;
        }
        k = k + 1;
    }
    proof {
        assert(protocol_set(views_of(a@)) =~= protocol_set(views_of(b@))) by {
            assert forall|e: Seq<char>| protocol_set(views_of(a@)).contains(e) implies protocol_set(
                views_of(b@),
            ).contains(e) by {
                lemma_protocol_set_contains(a@, e);
            }
            assert forall|e: Seq<char>| protocol_set(views_of(b@)).contains(e) implies protocol_set(
                views_of(a@),
            ).contains(e) by {
                lemma_protocol_set_contains(b@, e);
            }
        }
    }
    true
}

// ---------------------------------------------------------------------------
// The verification rule
// ---------------------------------------------------------------------------

/// Accepts the supplied protocols when they equal the trusted sources as a
/// set; otherwise only a `ConfigureProtocols` call that adds back exactly the
/// proposed removal passes.
pub open spec fn spec_verify_protocols(
    v: XcallManagerV,
    protocols: Seq<Seq<char>>,
    method: Seq<char>,
) -> Result<(), ContractError> {
    match v.protocols {
        None => Err(ContractError::NetworkNotConfigured),
        Some(cfg) => {
            if protocol_set(protocols) == protocol_set(cfg.sources) {
                Ok(())
            } else if method != "ConfigureProtocols"@ {
                Err(ContractError::InvalidProtocol)
            } else {
                match v.proposed_removal {
                    None => Err(ContractError::InvalidProtocol),
                    Some(p) => {
                        if protocol_set(protocols.push(p)) == protocol_set(cfg.sources) {
                            Ok(())
                        } else {
                            Err(ContractError::InvalidProtocol)
                        }
                    },
                }
            }
        },
    }
}

/// What `handle_call_message` decides, step by step.
pub open spec fn spec_handle_call_message(
    v: XcallManagerV,
    sender: Seq<char>,
    from: Seq<char>,
    data: Seq<u8>,
    protocols: Seq<Seq<char>>,
) -> Result<GovActionV, ContractError> {
    if sender != v.xcall {
        Err(ContractError::OnlyXCall)
    } else if from != v.icon_governance {
        Err(ContractError::OnlyGovernance)
    } else {
        match spec_gov_method(data) {
            None => Err(ContractError::DecoderError),
            Some(method) => {
                match spec_verify_protocols(v, protocols, method) {
                    Err(e) => Err(e),
                    Ok(_) => {
                        if method == "ConfigureProtocols"@ {
                            match spec_decode_configure_protocols(data) {
                                None => Err(ContractError::DecoderError),
                                Some(m) => Ok(GovActionV::ConfigureProtocols(m)),
                            }
                        } else if method == "Execute"@ {
                            match spec_decode_execute(data) {
                                None => Err(ContractError::DecoderError),
                                Some(m) => Ok(GovActionV::Execute(m)),
                            }
                        } else if method == "Migrate"@ {
                            match spec_decode_migrate(data) {
                                None => Err(ContractError::DecoderError),
                                Some(m) => Ok(GovActionV::Migrate(m)),
                            }
                        } else if method == "UpdateAdmin"@ {
                            match spec_decode_update_admin(data) {
                                None => Err(ContractError::DecoderError),
                                Some(m) => Ok(GovActionV::UpdateAdmin(m)),
                            }
                        } else {
                            Err(ContractError::InvalidMethod)
                        }
                    },
                }
            },
        }
    }
}

impl XcallManager {
    /// Initial state: the instantiating identity is the proposer, and the
    /// given protocols are trusted from the start.
    pub fn instantiate(
        proposer: String,
        xcall: String,
        icon_governance: String,
        protocols: ProtocolConfig,
    ) -> (r: XcallManager)
        ensures
            r.proposer == proposer,
            r.xcall == xcall,
            r.icon_governance == icon_governance,
            r.protocols == Some(protocols),
            r.proposed_removal is None,
    {
        XcallManager {
            xcall,
            icon_governance,
            proposer,
            protocols: Some(protocols),
            proposed_removal: None,
        }
    }

    /// Checks an inbound call's relay set against the trusted sources.
    pub fn verify_protocols(&self, protocols: &Vec<String>, method: &str) -> (r: Result<
        (),
        ContractError,
    >)
        ensures
            r == spec_verify_protocols(self@, views_of(protocols@), method@),
    {
        let cfg = match &self.protocols {
            None => {
                return Err(ContractError::NetworkNotConfigured);
            },
            Some(cfg) => cfg,
        };
        if array_eq(protocols, &cfg.sources) {
            return Ok(());
        }
        if !str_eq(method, "ConfigureProtocols") {
            return Err(ContractError::InvalidProtocol);
        }
        let p = match &self.proposed_removal {
            None => {
                return Err(ContractError::InvalidProtocol);
            },
            Some(p) => p,
        };
        let mut joined: Vec<String> = Vec::new();
        let mut i: usize = 0;
        while i < protocols.len()
            invariant
                i <= protocols@.len(),
                joined@.len() == i,
                forall|j: int| 0 <= j < i ==> joined@[j]@ == #[trigger] protocols@[j]@,
            decreases protocols@.len() - i,
        {
            joined.push(String::from_str(protocols[i].as_str()));
            i = i + 1;
        }
        joined.push(String::from_str(p.as_str()));
        proof {
            assert(views_of(joined@) =~= views_of(protocols@).push(p@));
        }
        if array_eq(&joined, &cfg.sources) {
            Ok(())
        } else {
            Err(ContractError::InvalidProtocol)
        }
    }

    /// Authenticates and decodes an inbound governance call, deciding the
    /// action the contract is to carry out.  The caller must be the router
    /// and the origin the governance address; the relay set must pass
    /// `verify_protocols`; the method tag picks the action.
    pub fn handle_call_message(
        &self,
        sender: &str,
        from: &str,
        data: &[u8],
        protocols: Option<Vec<String>>,
    ) -> (r: Result<GovAction, ContractError>)
        ensures
            ({
                let plist = match protocols {
                    Some(p) => views_of(p@),
                    None => Seq::empty(),
                };
                let sd = spec_handle_call_message(self@, sender@, from@, data@, plist);
                match r {
                    Ok(a) => sd == Ok::<_, ContractError>(a@),
                    Err(e) => sd == Err::<GovActionV, _>(e),
                }
            }),
    {
        if !str_eq(sender, self.xcall.as_str()) {
            return Err(ContractError::OnlyXCall);
        }
        if !str_eq(from, self.icon_governance.as_str()) {
            return Err(ContractError::OnlyGovernance);
        }
        let plist: Vec<String> = match protocols {
            Some(p) => p,
            None => Vec::new(),
        };
        proof {
            assert(views_of(Seq::<String>::empty()) =~= Seq::<Seq<char>>::empty());
        }
        let method = match crate::xcall_manager_msg::read_gov_method(data) {
            None => {
                return Err(ContractError::DecoderError);
            },
            Some(m) => m,
        };
        match self.verify_protocols(&plist, method.as_str()) {
            Err(e) => {
                return Err(e);
            },
            Ok(_) => {},
        }
        if str_eq(method.as_str(), "ConfigureProtocols") {
            match ConfigureProtocols::decode(data) {
                None => Err(ContractError::DecoderError),
                Some(m) => Ok(GovAction::ConfigureProtocols(m)),
            }
        } else if str_eq(method.as_str(), "Execute") {
            match Execute::decode(data) {
                None => Err(ContractError::DecoderError),
                Some(m) => Ok(GovAction::Execute(m)),
            }
        } else if str_eq(method.as_str(), "Migrate") {
            match Migrate::decode(data) {
                None => Err(ContractError::DecoderError),
                Some(m) => Ok(GovAction::Migrate(m)),
            }
        } else if str_eq(method.as_str(), "UpdateAdmin") {
            match UpdateAdmin::decode(data) {
                None => Err(ContractError::DecoderError),
                Some(m) => Ok(GovAction::UpdateAdmin(m)),
            }
        } else {
            Err(ContractError::InvalidMethod)
        }
    }

    /// Replaces the trusted relay set once every source proved to be a live
    /// contract, and clears any pending removal proposal.
    pub fn apply_configure_protocols(
        &mut self,
        cp: ConfigureProtocols,
        sources_are_contracts: bool,
    ) -> (r: Result<(), ContractError>)
        ensures
            !sources_are_contracts ==> r == Err::<(), _>(ContractError::InvalidProtocol) && *final(self) == *old(self),
            sources_are_contracts ==> r == Ok::<_, ContractError>(()) && final(self).protocols
                == Some(
                (ProtocolConfig { sources: cp.sources, destinations: cp.destinations }),
            ) && final(self).proposed_removal is None && final(self).xcall == old(self).xcall
                && final(self).icon_governance == old(self).icon_governance && final(self).proposer
                == old(self).proposer,
    {
        if !sources_are_contracts {
            return Err(ContractError::InvalidProtocol);
        }
        self.protocols = Some(ProtocolConfig { sources: cp.sources, destinations: cp.destinations });
        self.proposed_removal = None;
        Ok(())
    }

    /// Records a removal proposal; only the proposer may.
    pub fn propose_change(&mut self, sender: &str, protocol: String) -> (r: Result<
        (),
        ContractError,
    >)
        ensures
            sender@ != old(self).proposer@ ==> r == Err::<(), _>(ContractError::OnlyProposer)
                && *final(self) == *old(self),
            sender@ == old(self).proposer@ ==> r == Ok::<_, ContractError>(()) && final(self).proposed_removal == Some(protocol) && final(self).xcall == old(self).xcall && final(self).icon_governance == old(self).icon_governance && final(self).proposer == old(self).proposer && final(self).protocols == old(self).protocols,
    {
        if !str_eq(sender, self.proposer.as_str()) {
            return Err(ContractError::OnlyProposer);
        }
        self.proposed_removal = Some(protocol);
        Ok(())
    }

    /// Clears the removal proposal; only the proposer may.
    pub fn remove_proposal(&mut self, sender: &str) -> (r: Result<(), ContractError>)
        ensures
            sender@ != old(self).proposer@ ==> r == Err::<(), _>(ContractError::OnlyProposer)
                && *final(self) == *old(self),
            sender@ == old(self).proposer@ ==> r == Ok::<_, ContractError>(()) && final(self).proposed_removal is None && final(self).xcall == old(self).xcall && final(self).icon_governance == old(self).icon_governance && final(self).proposer == old(self).proposer && final(self).protocols == old(self).protocols,
    {
        if !str_eq(sender, self.proposer.as_str()) {
            return Err(ContractError::OnlyProposer);
        }
        self.proposed_removal = None;
        Ok(())
    }

    /// Hands the proposer identity to another; only the proposer may.
    pub fn change_proposer(&mut self, sender: &str, proposer: String) -> (r: Result<
        (),
        ContractError,
    >)
        ensures
            sender@ != old(self).proposer@ ==> r == Err::<(), _>(ContractError::OnlyProposer)
                && *final(self) == *old(self),
            sender@ == old(self).proposer@ ==> r == Ok::<_, ContractError>(()) && final(self).proposer == proposer && final(self).xcall == old(self).xcall && final(self).icon_governance == old(self).icon_governance && final(self).protocols == old(self).protocols && final(self).proposed_removal == old(self).proposed_removal,
    {
        if !str_eq(sender, self.proposer.as_str()) {
            return Err(ContractError::OnlyProposer);
        }
        self.proposer = proposer;
        Ok(())
    }

    /// The ordered check behind the `VerifyProtocols` query: the supplied
    /// list must equal the stored sources element by element.
    pub fn query_verify_protocols(&self, protocols: &Vec<String>) -> (r: bool)
        ensures
            r == (self@.protocols matches Some(cfg) && cfg.sources == views_of(protocols@)),
    {
        let cfg = match &self.protocols {
            None => {
                return false;
            },
            Some(cfg) => cfg,
        };
        if cfg.sources.len() != protocols.len() {
            proof {
                assert(views_of(cfg.sources@).len() == cfg.sources@.len());
                assert(views_of(protocols@).len() == protocols@.len());
                assert(self@.protocols == Some(cfg@));
            }
            return false;
        }
        let mut i: usize = 0;
        while i < protocols.len()
            invariant
                i <= protocols@.len(),
                protocols@.len() == cfg.sources@.len(),
                self@.protocols matches Some(c) && c.sources == views_of(cfg.sources@),
                forall|j: int| 0 <= j < i ==> cfg.sources@[j]@ == #[trigger] protocols@[j]@,
            decreases protocols@.len() - i,
        {
            if !str_eq(cfg.sources[i].as_str(), protocols[i].as_str()) {
                proof {
                    assert(views_of(cfg.sources@)[i as int] != views_of(protocols@)[i as int]);
                }
                return false;
            }
            i = i + 1;
        }
        proof {
            assert(views_of(cfg.sources@) =~= views_of(protocols@));
        }
        true
    }

    /// The stored protocol configuration, if any.
    pub fn get_protocols(&self) -> (r: Option<&ProtocolConfig>)
        ensures
            match r {
                Some(p) => self.protocols == Some(*p),
                None => self.protocols is None,
            },
    {
        match &self.protocols {
            Some(p) => Some(p),
            None => None,
        }
    }
}

} // verus!
