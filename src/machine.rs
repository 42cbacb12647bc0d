//! The machine: protocol parameters, the builtin registry and an optional
//! transition rule, answering what applies at a given height.

use std::marker::PhantomData;
use std::sync::Arc;
use vstd::prelude::*;
use crate::address::Address;
use crate::builtin::Builtin;
use crate::params::{CardinalNumber, CommonParams};
use crate::registry::BuiltinRegistry;

verus! {

/// The effective configuration in force at one height (gas costs, enabled
/// features, limits). Every query starts from a fresh baseline.
pub trait Configuration: Sized {
    /// The baseline that every query starts from.
    spec fn baseline() -> Self;

    /// A fresh baseline configuration.
    fn new_spec() -> (r: Self)
        ensures
            r == Self::baseline(),
    ;
}

/// Height-dependent overrides applied to a fresh baseline configuration. An
/// implementation writes only into the configuration it is handed, so that
/// the result depends on that configuration and the height alone.
pub trait SpecCreationRules<S> {
    /// What applying the rules at height `number` makes of `spec`.
    spec fn transition(&self, spec: S, number: CardinalNumber) -> S;

    /// Applies the rules at height `number` to `spec`.
    fn apply(&self, spec: &mut S, number: CardinalNumber)
        ensures
            *final(spec) == self.transition(*old(spec), number),
    ;
}

/// Resolves the configuration and the reachable builtins at each height.
pub struct Machine<S, R> {
    params: CommonParams,
    builtins: Arc<BuiltinRegistry>,
    spec_rules: Option<R>,
    configuration: PhantomData<S>,
}

impl<S: Configuration, R: SpecCreationRules<S>> Machine<S, R> {
    /// The chain's parameters.
    pub closed spec fn params_spec(&self) -> CommonParams {
        self.params
    }

    /// The builtin registry, by address.
    pub closed spec fn registry(&self) -> Map<Seq<u8>, Builtin> {
        (*self.builtins)@
    }

    /// The transition rule, if one is attached.
    pub closed spec fn rules(&self) -> Option<R> {
        self.spec_rules
    }

    pub closed spec fn wf(&self) -> bool {
        (*self.builtins).wf()
    }

    /// The configuration in force at height `number`: the baseline, with the
    /// transition rule applied if one is attached.
    pub open spec fn configuration_at(&self, number: CardinalNumber) -> S {
        match self.rules() {
            Some(rules) => rules.transition(S::baseline(), number),
            None => S::baseline(),
        }
    }

    /// A machine with the given parameters and builtins, and no transition
    /// rule.
    pub fn with_builtins(params: CommonParams, builtins: Arc<BuiltinRegistry>) -> (r: Self)
        requires
            builtins.wf(),
        ensures
            r.wf(),
            r.params_spec() == params,
            r.registry() == builtins@,
            r.rules() is None,
    {
        Machine { params, builtins, spec_rules: None, configuration: PhantomData }
    }

    /// The builtin at `address`, if one is registered there and it is
    /// reachable at height `cardinal_number`.
    pub fn builtin(&self, address: &Address, cardinal_number: CardinalNumber) -> (r: Option<&Builtin>)
        requires
            self.wf(),
        ensures
            r is Some <==> self.registry().contains_key(address@)
                && cardinal_number >= self.registry()[address@].activate_at,
            r is Some ==> *r->0 == self.registry()[address@],
    {
        self.builtins.resolve(address, cardinal_number)
    }

    /// Attaches the transition rule, replacing any attached before.
    pub fn set_spec_creation_rules(&mut self, rules: R)
        ensures
            final(self).rules() == Some(rules),
            final(self).params_spec() == old(self).params_spec(),
            final(self).registry() == old(self).registry(),
            final(self).wf() == old(self).wf(),
    {
        self.spec_rules = Some(rules);
    }

    /// The general parameters of the chain.
    pub fn params(&self) -> (r: &CommonParams)
        ensures
            *r == self.params_spec(),
    {
        &self.params
    }

    /// The configuration in force at height `number`.
    pub fn spec(&self, number: CardinalNumber) -> (r: S)
        ensures
            r == self.configuration_at(number),
    {
        let mut spec = S::new_spec();
        match &self.spec_rules {
            Some(rules) => rules.apply(&mut spec, number),
            None => {},
        }
        spec
    }

    /// The builtin contracts of the chain.
    pub fn builtins(&self) -> (r: &BuiltinRegistry)
        requires
            self.wf(),
        ensures
            r.wf(),
            r@ == self.registry(),
    {
        &self.builtins
    }
}

/// A machine with the default parameters, no builtins and no transition rule.
pub fn new_machine<S: Configuration, R: SpecCreationRules<S>>() -> (r: Machine<S, R>)
    ensures
        r.wf(),
        r.params_spec().is_default(),
        r.registry() == Map::<Seq<u8>, Builtin>::empty(),
        r.rules() is None,
{
    Machine::with_builtins(CommonParams::common_params(), Arc::new(BuiltinRegistry::new()))
}

/// Without a transition rule, every height gets the same configuration.
pub proof fn lemma_unruled_configuration_constant<S: Configuration, R: SpecCreationRules<S>>(
    m: Machine<S, R>,
    h1: CardinalNumber,
    h2: CardinalNumber,
)
    requires
        m.rules() is None,
    ensures
        m.configuration_at(h1) == m.configuration_at(h2),
{
}

/// With a transition rule attached, the configuration at a height is what the
/// rule makes of the baseline at that height: it depends on the rule and the
/// height alone, so repeated queries, and queries on machines sharing the
/// rule, agree.
pub proof fn lemma_ruled_configuration_deterministic<S: Configuration, R: SpecCreationRules<S>>(
    m1: Machine<S, R>,
    m2: Machine<S, R>,
    h: CardinalNumber,
)
    requires
        m1.rules() is Some,
        m1.rules() == m2.rules(),
    ensures
        m1.configuration_at(h) == m1.rules()->0.transition(S::baseline(), h),
        m1.configuration_at(h) == m2.configuration_at(h),
{
}

} // verus!
