//! Consumer-side bookkeeping for power-regulator supplies: a single named
//! supply, and a bulk of supplies that are switched on and off together,
//! with the on/off state the consumer is accountable for.

use vstd::prelude::*;

verus! {

/// One regulator supply held by a consumer, named by its supply string.
pub struct Regulator {
    supply: String,
}

impl Regulator {
    /// The supply name this regulator was obtained for.
    pub closed spec fn supply_spec(self) -> Seq<char> {
        self.supply@
    }

    /// Takes ownership of one supply.
    pub fn new(supply: String) -> (r: Regulator)
        ensures
            r.supply_spec() == supply@,
    {
        Regulator { supply }
    }

    /// The supply name, for looking the regulator up again.
    pub fn supply(&self) -> (r: &String)
        ensures
            r@ == self.supply_spec(),
    {
        &self.supply
    }
}

/// A bulk of regulator supplies acquired together and switched together.
/// The bulk records whether the consumer currently holds the supplies
/// enabled; it starts with them disabled.
pub struct Regulators {
    supplies: Vec<String>,
    init_loads: Vec<i32>,
    enabled: bool,
}

impl Regulators {
    /// The supply names of the bulk, in order.
    pub closed spec fn supplies_spec(self) -> Seq<Seq<char>> {
        self.supplies@.map_values(|s: String| s@)
    }

    /// The initial load requested for each supply, in microamperes.
    pub closed spec fn loads_spec(self) -> Seq<i32> {
        self.init_loads@
    }

    /// Whether the consumer currently holds the supplies enabled.
    pub closed spec fn enabled_spec(self) -> bool {
        self.enabled
    }

    /// How many supplies the bulk holds.
    pub open spec fn count(self) -> nat {
        self.supplies_spec().len()
    }

    /// One load is recorded per supply.
    pub open spec fn wf(self) -> bool {
        self.loads_spec().len() == self.count()
    }

    /// Acquires a bulk of supplies, disabled, with one initial load per
    /// supply. When loads are given their number must match the number of
    /// supplies; a mismatched request is answered with `None`. When none
    /// are given, every load is left at zero.
    pub fn new(supplies: Vec<String>, init_load: Option<Vec<i32>>) -> (r: Option<Regulators>)
        ensures
            r is Some <==> (match init_load {
                Some(l) => l@.len() == supplies@.len(),
                None => true,
            }),
            match r {
                Some(regs) => {
                    &&& regs.wf()
                    &&& regs.supplies_spec() == supplies@.map_values(|s: String| s@)
                    &&& !regs.enabled_spec()
                    &&& regs.loads_spec() == (match init_load {
                        Some(l) => l@,
                        None => Seq::new(supplies@.len(), |i: int| 0i32),
                    })
                }
                None => true,
            },
    {
        match init_load {
            Some(loads) => {
                if loads.len() == supplies.len() {
                    Some(Regulators { supplies, init_loads: loads, enabled: false })
                } else {
                    None
                }
            }
            None => {
                let mut loads: Vec<i32> = Vec::new();
                let n = supplies.len();
                let mut i: usize = 0;
                while i < n
                    invariant
                        i <= n,
                        loads@.len() == i,
                        forall|j: int| 0 <= j < i ==> loads@[j] == 0i32,
                    decreases n - i,
                {
                    loads.push(0);
                    i = i + 1;
                }
                proof {
                    assert(loads@ =~= Seq::new(supplies@.len(), |j: int| 0i32));
                }
                Some(Regulators { supplies, init_loads: loads, enabled: false })
            }
        }
    }

    /// Switches every supply of the bulk on and records that the consumer
    /// now holds them enabled.
    pub fn enable(&mut self)
        ensures
            final(self).enabled_spec(),
            final(self).supplies_spec() == old(self).supplies_spec(),
            final(self).loads_spec() == old(self).loads_spec(),
    {
        self.enabled = true;
    }

    /// Switches every supply of the bulk off and records that the
    /// consumer no longer holds them enabled.
    pub fn disable(&mut self)
        ensures
            !final(self).enabled_spec(),
            final(self).supplies_spec() == old(self).supplies_spec(),
            final(self).loads_spec() == old(self).loads_spec(),
    {
        self.enabled = false;
    }

    /// Whether the consumer currently holds the supplies enabled.
    pub fn is_enabled(&mut self) -> (r: bool)
        ensures
            r == old(self).enabled_spec(),
            *final(self) == *old(self),
    {
        self.enabled
    }

    /// Hands the bulk back to the framework. A bulk the consumer still
    /// holds enabled is switched off on the way out, so the supplies are
    /// never left running; the answer says whether that last switch-off
    /// was needed.
    pub fn release(self) -> (disabled: bool)
        ensures
            disabled == self.enabled_spec(),
    {
        let mut bulk = self;
        let was_enabled = bulk.is_enabled();
        if was_enabled {
            bulk.disable();
        }
        was_enabled
    }

    /// How many supplies the bulk holds, as a machine word.
    pub fn len(&self) -> (r: usize)
        ensures
            r == self.count(),
    {
        self.supplies.len()
    }
}

} // verus!
