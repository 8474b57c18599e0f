//! The virtual screen of the application: one at a time, alive until it is destroyed.
use vstd::prelude::*;

verus! {

/// The name of the virtual screen.
pub const SCREEN_NAME: &'static str = "vdev-demo";

/// The place of the virtual screen.
#[derive(Clone, Copy, Debug, PartialEq, Eq, Structural)]
pub struct ScreenSlot {
    /// The screen that there is.
    pub id: Option<u32>,
}

impl ScreenSlot {
    /// No screen.
    pub fn slot() -> (s: ScreenSlot)
        ensures
            s.id is None,
    {
        ScreenSlot { id: None }
    }

    /// Empties the place; gives the screen that is to be destroyed, if there was one.
    pub fn destroy(&mut self) -> (old_id: Option<u32>)
        ensures
            old_id == old(self).id,
            final(self).id is None,
            forall|alive: int|
                #[trigger] screens_next(*old(self), alive, ScreenOp::Destroy) == (
                    *final(self),
                    alive - count(old_id),
                ),
    {
        let id: Option<u32> = self.id;
        self.id = None;
        id
    }

    /// Takes what making a screen gave. The place is emptied first: the first result is the screen
    /// that is to be destroyed, if there still was one. The second is the screen that there is now.
    pub fn create_display(&mut self, made: Option<u32>) -> (r: (Option<u32>, Option<u32>))
        ensures
            r.0 == old(self).id,
            r.1 == made,
            final(self).id == made,
            forall|alive: int|
                #[trigger] screens_next(*old(self), alive, ScreenOp::Create(made)) == (
                    *final(self),
                    alive - count(r.0) + count(r.1),
                ),
    {
        let gone: Option<u32> = self.destroy();
        self.id = made;
        (gone, made)
    }

    /// The screen that there is.
    pub fn display_id(&self) -> (id: Option<u32>)
        ensures
            id == self.id,
    {
        self.id
    }
}

/// What happens to screens.
#[derive(Clone, Copy, Debug, PartialEq, Eq, Structural)]
pub enum ScreenOp {
    /// One is asked for: the old one is destroyed, and the making gives a new one or fails.
    Create(Option<u32>),
    /// It is destroyed.
    Destroy,
}

/// How many screens that is.
pub open spec fn count(id: Option<u32>) -> int {
    if id is Some {
        1
    } else {
        0
    }
}

/// The place and how many screens are alive, after what happens.
pub open spec fn screens_next(slot: ScreenSlot, alive: int, op: ScreenOp) -> (ScreenSlot, int) {
    match op {
        ScreenOp::Create(made) => (
            ScreenSlot { id: made },
            alive - count(slot.id) + count(made),
        ),
        ScreenOp::Destroy => (ScreenSlot { id: None }, alive - count(slot.id)),
    }
}

/// The place and how many screens are alive, after a row of what happens, from the beginning.
pub open spec fn screens_after(ops: Seq<ScreenOp>) -> (ScreenSlot, int)
    decreases ops.len(),
{
    if ops.len() == 0 {
        (ScreenSlot { id: None }, 0)
    } else {
        let before = screens_after(ops.drop_last());
        screens_next(before.0, before.1, ops.last())
    }
}

/// No screen is ever forgotten, and there is one at most: whatever happens, the screen in the place
/// is the only one alive, and none is where the place is empty.
pub proof fn law_one_screen_at_most(ops: Seq<ScreenOp>)
    ensures
        screens_after(ops).1 == count(screens_after(ops).0.id),
        0 <= screens_after(ops).1 <= 1,
    decreases ops.len(),
{
    if ops.len() > 0 {
        law_one_screen_at_most(ops.drop_last());
    }
}

/// Destroying the screen before another is made comes to the same as asking for another.
pub proof fn law_destroying_first_changes_nothing(slot: ScreenSlot, alive: int, made: Option<u32>)
    ensures
        ({
            let emptied = screens_next(slot, alive, ScreenOp::Destroy);
            screens_next(emptied.0, emptied.1, ScreenOp::Create(made))
        }) == screens_next(slot, alive, ScreenOp::Create(made)),
{
}

/// The place holds the screen that was made last, if that was made, and none after it was
/// destroyed; whatever was in it before is destroyed.
pub proof fn law_place_holds_the_last_screen(slot: ScreenSlot, alive: int, made: Option<u32>)
    ensures
        screens_next(slot, alive, ScreenOp::Create(made)).0.id == made,
        screens_next(slot, alive, ScreenOp::Destroy).0.id is None,
        screens_next(slot, alive, ScreenOp::Destroy).1 == if slot.id is Some {
            alive - 1
        } else {
            alive
        },
        screens_next(slot, alive, ScreenOp::Create(made)).1 - screens_next(
            slot,
            alive,
            ScreenOp::Destroy,
        ).1 == if made is Some {
            1int
        } else {
            0
        },
{
}

} // verus!
