use vstd::prelude::*;

use crate::error::{Error, Event};
use crate::pallet::Pallet;
use crate::proposal::{
    application_data_verdict, check_application_data, is_valid_utf8, ApplicationStatus,
    CuratorApplication,
};
use crate::AccountId;

verus! {

/// Largest weight the curator may recommend for a whitelisted module.
pub const MAX_RECOMMENDED_WEIGHT: u8 = 100;

impl Pallet {
    pub open spec fn whitelisted(self, module: AccountId) -> bool {
        self.legit_whitelist@.contains_key(module)
    }

    /// The outcome of applying for a curated module, in the order the
    /// checks are made.
    pub open spec fn application_outcome(self, origin: AccountId, data: Seq<u8>) -> Result<(), Error> {
        let verdict = application_data_verdict(data.len() as int, is_valid_utf8(data));
        if verdict is Err {
            verdict
        } else if self.balance(origin) < self.general_subnet_application_cost {
            Err(Error::NotEnoughtBalnceToApply)
        } else if self.curator_applications@.len() >= u64::MAX {
            Err(Error::InternalError)
        } else {
            Ok(())
        }
    }

    /// The outcome of the curator deciding application `id`.
    pub open spec fn decision_outcome(self, origin: AccountId, id: u64) -> Result<(), Error> {
        if origin != self.curator {
            Err(Error::NotCurator)
        } else if id >= self.curator_applications@.len() {
            Err(Error::ApplicationNotFound)
        } else if self.curator_applications@[id as int].status != ApplicationStatus::Pending {
            Err(Error::ApplicationNotPending)
        } else {
            Ok(())
        }
    }

    /// How `new` follows from `self` when the curator's decision on
    /// application `id` returns `r`.
    pub open spec fn decision_effect(
        self,
        new: Pallet,
        origin: AccountId,
        id: u64,
        status: ApplicationStatus,
        r: Result<(), Error>,
    ) -> bool {
        &&& r == self.decision_outcome(origin, id)
        &&& new.wf()
        &&& new.same_ledgers_and_config(self)
        &&& new.same_votes(self)
        &&& new.legit_whitelist@ == self.legit_whitelist@
        &&& new.curator == self.curator
        &&& new.events@ == self.events@
        &&& new.curator_applications@.len() == self.curator_applications@.len()
        &&& forall|j: int|
            0 <= j < self.curator_applications@.len() && (r is Err || j != id) ==> (
            #[trigger] new.curator_applications@[j]) == self.curator_applications@[j]
        &&& r is Ok ==> {
            let a = self.curator_applications@[id as int];
            let b = new.curator_applications@[id as int];
            &&& b.id == a.id
            &&& b.user_id == a.user_id
            &&& b.paying_for == a.paying_for
            &&& b.data@ == a.data@
            &&& b.status == status
        }
    }

    /// Asks the curator to admit `application_key`, paid for by `origin`.
    pub fn add_dao_application(&mut self, origin: AccountId, application_key: AccountId, data: Vec<
        u8,
    >) -> (r: Result<(), Error>)
        requires
            old(self).wf(),
        ensures
            final(self).wf(),
            r == old(self).application_outcome(origin, data@),
            final(self).global_stake@ == old(self).global_stake@,
            final(self).subnet_stake@ == old(self).subnet_stake@,
            final(self).same_votes(*old(self)),
            final(self).legit_whitelist@ == old(self).legit_whitelist@,
            final(self).curator == old(self).curator,
            r is Err ==> {
                &&& final(self).balances@ == old(self).balances@
                &&& final(self).curator_applications@ == old(self).curator_applications@
                &&& final(self).events@ == old(self).events@
            },
            r is Ok ==> {
                let id = old(self).curator_applications@.len();
                let a = final(self).curator_applications@.last();
                &&& final(self).curator_applications@.len() == id + 1
                &&& final(self).curator_applications@.drop_last()
                    == old(self).curator_applications@
                &&& a.id == id
                &&& a.user_id == origin
                &&& a.paying_for == application_key
                &&& a.data@ == data@
                &&& a.status == ApplicationStatus::Pending
                &&& final(self).balances@ == old(self).balances@.insert(
                    origin,
                    (old(self).balance(origin) - old(self).general_subnet_application_cost) as u64,
                )
                &&& final(self).events@ == old(self).events@.push(
                    Event::ApplicationCreated(id as u64),
                )
            },
    {
        match check_application_data(&data) {
            Ok(()) => {},
            Err(e) => return Err(e),
        }
        let cost = self.general_subnet_application_cost;
        let balance = self.balance_of(origin);
        if balance < cost {
            return Err(Error::NotEnoughtBalnceToApply);
        }
        let id = self.curator_applications.len() as u64;
        if id == u64::MAX {
            return Err(Error::InternalError);
        }
        self.balances.insert(origin, balance - cost);
        self.curator_applications.push(
            CuratorApplication {
                id,
                user_id: origin,
                paying_for: application_key,
                data,
                status: ApplicationStatus::Pending,
            },
        );
        self.events.push(Event::ApplicationCreated(id));
        proof {
            assert(self.curator_applications@.drop_last() =~= old(self).curator_applications@);
        }
        Ok(())
    }

    fn decide_application(&mut self, origin: AccountId, id: u64, status: ApplicationStatus) -> (r:
        Result<(), Error>)
        requires
            old(self).wf(),
        ensures
            old(self).decision_effect(*final(self), origin, id, status, r),
    {
        if origin != self.curator {
            return Err(Error::NotCurator);
        }
        if id >= self.curator_applications.len() as u64 {
            return Err(Error::ApplicationNotFound);
        }
        let idx = id as usize;
        if self.curator_applications[idx].status != ApplicationStatus::Pending {
            return Err(Error::ApplicationNotPending);
        }
        self.curator_applications[idx].status = status;
        Ok(())
    }

    /// The curator admits the module of a pending application.
    pub fn accept_dao_application(&mut self, origin: AccountId, id: u64) -> (r: Result<(), Error>)
        requires
            old(self).wf(),
        ensures
            old(self).decision_effect(*final(self), origin, id, ApplicationStatus::Accepted, r),
    {
        self.decide_application(origin, id, ApplicationStatus::Accepted)
    }

    /// The curator turns down a pending application.
    pub fn refuse_dao_application(&mut self, origin: AccountId, id: u64) -> (r: Result<(), Error>)
        requires
            old(self).wf(),
        ensures
            old(self).decision_effect(*final(self), origin, id, ApplicationStatus::Refused, r),
    {
        self.decide_application(origin, id, ApplicationStatus::Refused)
    }

    /// The curator whitelists a module with a recommended weight in `1..=100`.
    pub fn add_to_whitelist(&mut self, origin: AccountId, module_key: AccountId, recommended_weight: u8) -> (r:
        Result<(), Error>)
        requires
            old(self).wf(),
        ensures
            final(self).wf(),
            r == if origin != old(self).curator {
                Err(Error::NotCurator)
            } else if old(self).whitelisted(module_key) {
                Err(Error::AlreadyWhitelisted)
            } else if recommended_weight == 0 || recommended_weight > MAX_RECOMMENDED_WEIGHT {
                Err(Error::InvalidRecommendedWeight)
            } else {
                Ok::<(), Error>(())
            },
            final(self).same_ledgers_and_config(*old(self)),
            final(self).same_votes(*old(self)),
            final(self).curator_applications@ == old(self).curator_applications@,
            final(self).curator == old(self).curator,
            final(self).legit_whitelist@ == if r is Ok {
                old(self).legit_whitelist@.insert(module_key, recommended_weight)
            } else {
                old(self).legit_whitelist@
            },
            final(self).events@ == if r is Ok {
                old(self).events@.push(Event::WhitelistModuleAdded(module_key))
            } else {
                old(self).events@
            },
    {
        if origin != self.curator {
            return Err(Error::NotCurator);
        }
        if self.legit_whitelist.contains_key(&module_key) {
            return Err(Error::AlreadyWhitelisted);
        }
        if recommended_weight == 0 || recommended_weight > MAX_RECOMMENDED_WEIGHT {
            return Err(Error::InvalidRecommendedWeight);
        }
        self.legit_whitelist.insert(module_key, recommended_weight);
        self.events.push(Event::WhitelistModuleAdded(module_key));
        Ok(())
    }

    /// The curator takes a module off the whitelist.
    pub fn remove_from_whitelist(&mut self, origin: AccountId, module_key: AccountId) -> (r: Result<
        (),
        Error,
    >)
        requires
            old(self).wf(),
        ensures
            final(self).wf(),
            r == if origin != old(self).curator {
                Err(Error::NotCurator)
            } else if !old(self).whitelisted(module_key) {
                Err(Error::NotWhitelisted)
            } else {
                Ok::<(), Error>(())
            },
            final(self).same_ledgers_and_config(*old(self)),
            final(self).same_votes(*old(self)),
            final(self).curator_applications@ == old(self).curator_applications@,
            final(self).curator == old(self).curator,
            final(self).legit_whitelist@ == if r is Ok {
                old(self).legit_whitelist@.remove(module_key)
            } else {
                old(self).legit_whitelist@
            },
            final(self).events@ == if r is Ok {
                old(self).events@.push(Event::WhitelistModuleRemoved(module_key))
            } else {
                old(self).events@
            },
    {
        if origin != self.curator {
            return Err(Error::NotCurator);
        }
        if !self.legit_whitelist.contains_key(&module_key) {
            return Err(Error::NotWhitelisted);
        }
        self.legit_whitelist.remove(&module_key);
        self.events.push(Event::WhitelistModuleRemoved(module_key));
        Ok(())
    }

    /// The recommended weight of a whitelisted module.
    pub fn recommended_weight(&self, module_key: AccountId) -> (r: Option<u8>)
        ensures
            r is Some <==> self.whitelisted(module_key),
            r matches Some(w) ==> w == self.legit_whitelist@[module_key],
    {
        match self.legit_whitelist.get(&module_key) {
            Some(w) => Some(*w),
            None => None,
        }
    }
}

} // verus!
