//! The toggle that arms the freeze spell.

use vstd::prelude::*;

verus! {

/// Whether the freeze spell is armed.
#[derive(Clone, Copy, Debug, PartialEq, Eq, Structural)]
pub struct Spell {
    pub is_active: bool,
}

impl Spell {
    /// A disarmed spell.
    pub fn new() -> (r: Spell)
        ensures
            !r.is_active,
    {
        Spell { is_active: false }
    }
}

/// A click on the spell button flips whether it is armed.
pub fn handle_spell_click(spell: &mut Spell)
    ensures
        final(spell).is_active == !old(spell).is_active,
{
    spell.is_active = !spell.is_active;
}

} // verus!
