//! An ordered list of contract addresses that are told about events
//! (new proposals, status changes, votes). An address appears at most
//! once, and a failing receiver can be dropped by its index.
use vstd::prelude::*;

verus! {

/// Why a change to a list of hooks was refused.
#[derive(Clone, Copy, Debug, PartialEq, Eq, Structural)]
pub enum HookError {
    /// The address is already registered as a hook.
    HookAlreadyRegistered {},
    /// The address is not registered as a hook.
    HookNotRegistered {},
}

/// The receivers of one kind of hook, in registration order.
#[derive(Clone, Debug)]
pub struct Hooks {
    pub hooks: Vec<String>,
}

/// The addresses of a list of strings.
pub open spec fn addrs(s: Seq<String>) -> Seq<Seq<char>> {
    s.map_values(|a: String| a@)
}

impl View for Hooks {
    type V = Seq<Seq<char>>;

    /// The registered addresses, in order.
    open spec fn view(&self) -> Seq<Seq<char>> {
        addrs(self.hooks@)
    }
}

impl Hooks {

    pub fn new() -> (h: Hooks)
        ensures
            h.view() == Seq::<Seq<char>>::empty(),
    {
        Hooks { hooks: Vec::new() }
    }

    /// The position of `addr` in the list.
    fn position(&self, addr: &String) -> (r: Option<usize>)
        ensures
            match r {
                Some(i) => i < self.hooks@.len() && self.view()[i as int] == addr@,
                None => !self.view().contains(addr@),
            },
    {
        let mut i: usize = 0;
        while i < self.hooks.len()
            invariant
                i <= self.hooks@.len(),
                forall|j: int| 0 <= j < i ==> self.view()[j] != addr@,
            decreases self.hooks.len() - i,
        {
            if self.hooks[i] == *addr {
                return Some(i);
            }
            i = i + 1;
        }
        None
    }

    /// Registers `addr`, which must not be registered already.
    pub fn add_hook(&mut self, addr: String) -> (r: Result<(), HookError>)
        ensures
            old(self).view().contains(addr@) ==> r == Err::<(), HookError>(
                HookError::HookAlreadyRegistered {},
            ) && *final(self) == *old(self),
            !old(self).view().contains(addr@) ==> r is Ok
                && final(self).view() == old(self).view().push(addr@),
    {
        match self.position(&addr) {
            Some(_) => Err(HookError::HookAlreadyRegistered {}),
            None => {
                self.hooks.push(addr);
                proof {
                    assert(self.view() =~= old(self).view().push(addr@));
                }
                Ok(())
            },
        }
    }

    /// Unregisters `addr`, which must be registered.
    pub fn remove_hook(&mut self, addr: &String) -> (r: Result<(), HookError>)
        ensures
            !old(self).view().contains(addr@) ==> r == Err::<(), HookError>(
                HookError::HookNotRegistered {},
            ) && *final(self) == *old(self),
            old(self).view().contains(addr@) ==> r is Ok && exists|i: int|
                0 <= i < old(self).view().len() && old(self).view()[i] == addr@
                    && final(self).view() == old(self).view().remove(i),
    {
        match self.position(addr) {
            None => Err(HookError::HookNotRegistered {}),
            Some(i) => {
                self.hooks.remove(i);
                proof {
                    assert(self.view() =~= old(self).view().remove(i as int));
                }
                Ok(())
            },
        }
    }

    /// Unregisters the hook at `index` and gives back its address.
    pub fn remove_hook_by_index(&mut self, index: u64) -> (r: String)
        requires
            index < old(self).view().len(),
        ensures
            r@ == old(self).view()[index as int],
            final(self).view() == old(self).view().remove(index as int),
    {
        assert(self.view().len() == self.hooks@.len());
        let n = self.hooks.len();
        let i: usize = index as usize;
        assert(i == index);
        let r = self.hooks.remove(i);
        proof {
            assert(self.view() =~= old(self).view().remove(index as int));
        }
        r
    }

    /// The number of registered hooks.
    pub fn len(&self) -> (n: usize)
        ensures
            n == self.view().len(),
    {
        self.hooks.len()
    }
}

/// Removing a receiver just added gives back the receivers as they
/// were: the removed position is the one the addition filled.
pub proof fn law_remove_hook_undoes_add(hooks: Seq<Seq<char>>, addr: Seq<char>, i: int)
    requires
        !hooks.contains(addr),
        0 <= i < hooks.push(addr).len(),
        hooks.push(addr)[i] == addr,
    ensures
        hooks.push(addr).remove(i) == hooks,
{
    if i < hooks.len() {
        assert(hooks[i] == addr);
    }
    assert(hooks.push(addr).remove(i) =~= hooks);
}

} // verus!
