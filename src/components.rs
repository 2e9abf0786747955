//! Components and the entity store: one optional slot per component kind
//! for every entity, all slot vectors of one length.
use vstd::prelude::*;

verus! {

/// A cell of the grid.
#[derive(Clone, Copy, Debug, PartialEq, Eq, Structural)]
pub struct Position {
    pub x: i32,
    pub y: i32,
}

/// What an entity sees: the cells in sight, how far it sees, and whether its
/// sight is stale.
#[derive(Debug)]
pub struct Viewshed {
    pub visible_tiles: Vec<Position>,
    pub range: i32,
    pub dirty: bool,
}

/// A hostile creature.
#[derive(Debug)]
pub struct Monster {
    pub name: String,
}

/// Marks an entity whose cell blocks movement and paths of others.
#[derive(Clone, Copy, Debug, PartialEq, Eq, Structural)]
pub struct OccupiesTile {}

/// Marks the player's entity.
#[derive(Clone, Copy, Debug, PartialEq, Eq, Structural)]
pub struct Player {}

/// A structural change to the entity store, deferred until the end of the
/// step. A command naming an entity that does not exist does nothing.
#[derive(Clone, Copy, Debug, PartialEq, Eq, Structural)]
pub enum Command {
    /// Appends an entity with no component.
    Spawn,
    /// Removes every component of an entity.
    Clear(usize),
    /// Gives an entity a position.
    Place(usize, Position),
    /// Makes an entity block the cell it stands on.
    Block(usize),
    /// Takes the blocking marker off an entity.
    Unblock(usize),
}

/// The entity store. Entity `e` owns slot `e` of every vector; `player_pos`
/// is where the player stands, shared with every system; `pending` holds
/// the commands queued during a step, applied by `maintain`.
pub struct World {
    pub positions: Vec<Option<Position>>,
    pub viewsheds: Vec<Option<Viewshed>>,
    pub monsters: Vec<Option<Monster>>,
    pub occupiers: Vec<Option<OccupiesTile>>,
    pub players: Vec<Option<Player>>,
    pub player_pos: Position,
    pub pending: Vec<Command>,
}

/// A component slot vector after command `c`: a new entity gets an empty
/// slot, a cleared entity loses its component.
pub open spec fn slots_after_one<T>(s: Seq<Option<T>>, c: Command) -> Seq<Option<T>> {
    match c {
        Command::Spawn => s.push(None),
        Command::Clear(e) => if e < s.len() {
            s.update(e as int, None)
        } else {
            s
        },
        _ => s,
    }
}

/// A component slot vector after the commands of `cmds`, in order.
pub open spec fn slots_after<T>(s: Seq<Option<T>>, cmds: Seq<Command>) -> Seq<Option<T>>
    decreases cmds.len(),
{
    if cmds.len() == 0 {
        s
    } else {
        slots_after_one(slots_after(s, cmds.drop_last()), cmds.last())
    }
}

/// The positions after command `c`.
pub open spec fn positions_after_one(s: Seq<Option<Position>>, c: Command) -> Seq<Option<Position>> {
    match c {
        Command::Place(e, p) => if e < s.len() {
            s.update(e as int, Some(p))
        } else {
            s
        },
        _ => slots_after_one(s, c),
    }
}

/// The positions after the commands of `cmds`, in order.
pub open spec fn positions_after(s: Seq<Option<Position>>, cmds: Seq<Command>) -> Seq<
    Option<Position>,
>
    decreases cmds.len(),
{
    if cmds.len() == 0 {
        s
    } else {
        positions_after_one(positions_after(s, cmds.drop_last()), cmds.last())
    }
}

/// The blocking markers after command `c`.
pub open spec fn occupiers_after_one(s: Seq<Option<OccupiesTile>>, c: Command) -> Seq<
    Option<OccupiesTile>,
> {
    match c {
        Command::Block(e) => if e < s.len() {
            s.update(e as int, Some(OccupiesTile {}))
        } else {
            s
        },
        Command::Unblock(e) => if e < s.len() {
            s.update(e as int, None)
        } else {
            s
        },
        _ => slots_after_one(s, c),
    }
}

/// The blocking markers after the commands of `cmds`, in order.
pub open spec fn occupiers_after(s: Seq<Option<OccupiesTile>>, cmds: Seq<Command>) -> Seq<
    Option<OccupiesTile>,
>
    decreases cmds.len(),
{
    if cmds.len() == 0 {
        s
    } else {
        occupiers_after_one(occupiers_after(s, cmds.drop_last()), cmds.last())
    }
}

/// `new` is `old` with its queued commands applied in order and the queue
/// emptied.
pub open spec fn maintained(old: &World, new: &World) -> bool {
    &&& new.positions@ == positions_after(old.positions@, old.pending@)
    &&& new.occupiers@ == occupiers_after(old.occupiers@, old.pending@)
    &&& new.viewsheds@ == slots_after(old.viewsheds@, old.pending@)
    &&& new.monsters@ == slots_after(old.monsters@, old.pending@)
    &&& new.players@ == slots_after(old.players@, old.pending@)
    &&& new.player_pos == old.player_pos
    &&& new.pending@.len() == 0
}

impl World {
    pub open spec fn len_spec(&self) -> int {
        self.positions@.len() as int
    }

    /// Every slot vector has one entry per entity.
    pub open spec fn wf(&self) -> bool {
        &&& self.viewsheds@.len() == self.len_spec()
        &&& self.monsters@.len() == self.len_spec()
        &&& self.occupiers@.len() == self.len_spec()
        &&& self.players@.len() == self.len_spec()
    }

    /// An empty store with the player's position set.
    pub fn new(player_pos: Position) -> (r: World)
        ensures
            r.wf(),
            r.len_spec() == 0,
            r.player_pos == player_pos,
            r.pending@.len() == 0,
    {
        World {
            positions: Vec::new(),
            viewsheds: Vec::new(),
            monsters: Vec::new(),
            occupiers: Vec::new(),
            players: Vec::new(),
            player_pos,
            pending: Vec::new(),
        }
    }

    /// Queues `c` for the end of the step.
    pub fn enqueue(&mut self, c: Command)
        requires
            old(self).wf(),
        ensures
            final(self).wf(),
            final(self).pending@ == old(self).pending@.push(c),
            final(self).positions@ == old(self).positions@,
            final(self).viewsheds@ == old(self).viewsheds@,
            final(self).monsters@ == old(self).monsters@,
            final(self).occupiers@ == old(self).occupiers@,
            final(self).players@ == old(self).players@,
            final(self).player_pos == old(self).player_pos,
    {
        self.pending.push(c);
    }

    /// Applies the queued commands in order, then empties the queue.
    pub fn maintain(&mut self)
        requires
            old(self).wf(),
        ensures
            final(self).wf(),
            maintained(old(self), final(self)),
    {
        let ghost cmds = self.pending@;
        let mut i: usize = 0;
        while i < self.pending.len()
            invariant
                self.wf(),
                self.pending@ == cmds,
                cmds == old(self).pending@,
                self.player_pos == old(self).player_pos,
                i <= cmds.len(),
                self.positions@ == positions_after(old(self).positions@, cmds.subrange(0, i as int)),
                self.occupiers@ == occupiers_after(old(self).occupiers@, cmds.subrange(0, i as int)),
                self.viewsheds@ == slots_after(old(self).viewsheds@, cmds.subrange(0, i as int)),
                self.monsters@ == slots_after(old(self).monsters@, cmds.subrange(0, i as int)),
                self.players@ == slots_after(old(self).players@, cmds.subrange(0, i as int)),
            decreases cmds.len() - i,
        {
            proof {
                assert(cmds.subrange(0, i + 1).drop_last() =~= cmds.subrange(0, i as int));
            }
            let c = self.pending[i];
            match c {
                Command::Spawn => {
                    self.positions.push(None);
                    self.viewsheds.push(None);
                    self.monsters.push(None);
                    self.occupiers.push(None);
                    self.players.push(None);
                },
                Command::Clear(e) => {
                    if e < self.positions.len() {
                        self.positions.set(e, None);
                        self.viewsheds.set(e, None);
                        self.monsters.set(e, None);
                        self.occupiers.set(e, None);
                        self.players.set(e, None);
                    }
                },
                Command::Place(e, p) => {
                    if e < self.positions.len() {
                        self.positions.set(e, Some(p));
                    }
                },
                Command::Block(e) => {
                    if e < self.occupiers.len() {
                        self.occupiers.set(e, Some(OccupiesTile {}));
                    }
                },
                Command::Unblock(e) => {
                    if e < self.occupiers.len() {
                        self.occupiers.set(e, None);
                    }
                },
            }
            i = i + 1;
        }
        proof {
            assert(cmds.subrange(0, cmds.len() as int) =~= cmds);
        }
        self.pending = Vec::new();
    }

    /// The number of entities.
    pub fn len(&self) -> (r: usize)
        ensures
            r == self.len_spec(),
    {
        self.positions.len()
    }

    /// Adds an entity with no component and returns its identifier.
    pub fn create_entity(&mut self) -> (r: usize)
        requires
            old(self).wf(),
        ensures
            final(self).wf(),
            r == old(self).len_spec(),
            final(self).positions@ == old(self).positions@.push(None),
            final(self).viewsheds@ == old(self).viewsheds@.push(None),
            final(self).monsters@ == old(self).monsters@.push(None),
            final(self).occupiers@ == old(self).occupiers@.push(None),
            final(self).players@ == old(self).players@.push(None),
            final(self).player_pos == old(self).player_pos,
    {
        let e = self.positions.len();
        self.positions.push(None);
        self.viewsheds.push(None);
        self.monsters.push(None);
        self.occupiers.push(None);
        self.players.push(None);
        e
    }

    /// Gives entity `e` a position.
    pub fn with_position(&mut self, e: usize, p: Position)
        requires
            old(self).wf(),
            e < old(self).len_spec(),
        ensures
            final(self).wf(),
            final(self).positions@ == old(self).positions@.update(e as int, Some(p)),
            final(self).viewsheds@ == old(self).viewsheds@,
            final(self).monsters@ == old(self).monsters@,
            final(self).occupiers@ == old(self).occupiers@,
            final(self).players@ == old(self).players@,
            final(self).player_pos == old(self).player_pos,
    {
        self.positions.set(e, Some(p));
    }

    /// Gives entity `e` a viewshed with nothing in sight yet.
    pub fn with_viewshed(&mut self, e: usize, range: i32)
        requires
            old(self).wf(),
            e < old(self).len_spec(),
        ensures
            final(self).wf(),
            final(self).viewsheds@[e as int] is Some,
            final(self).viewsheds@[e as int]->Some_0.visible_tiles@.len() == 0,
            final(self).viewsheds@[e as int]->Some_0.range == range,
            final(self).viewsheds@[e as int]->Some_0.dirty,
            forall|j: int|
                0 <= j < old(self).len_spec() && j != e ==> final(self).viewsheds@[j]
                    == old(self).viewsheds@[j],
            final(self).positions@ == old(self).positions@,
            final(self).monsters@ == old(self).monsters@,
            final(self).occupiers@ == old(self).occupiers@,
            final(self).players@ == old(self).players@,
            final(self).player_pos == old(self).player_pos,
    {
        self.viewsheds.set(e, Some(Viewshed { visible_tiles: Vec::new(), range, dirty: true }));
    }

    /// Makes entity `e` a monster with the given name.
    pub fn with_monster(&mut self, e: usize, name: String)
        requires
            old(self).wf(),
            e < old(self).len_spec(),
        ensures
            final(self).wf(),
            final(self).monsters@[e as int] is Some,
            final(self).monsters@[e as int]->Some_0.name@ == name@,
            forall|j: int|
                0 <= j < old(self).len_spec() && j != e ==> final(self).monsters@[j]
                    == old(self).monsters@[j],
            final(self).positions@ == old(self).positions@,
            final(self).viewsheds@ == old(self).viewsheds@,
            final(self).occupiers@ == old(self).occupiers@,
            final(self).players@ == old(self).players@,
            final(self).player_pos == old(self).player_pos,
    {
        self.monsters.set(e, Some(Monster { name }));
    }

    /// Makes entity `e` block the cell it stands on.
    pub fn with_occupies_tile(&mut self, e: usize)
        requires
            old(self).wf(),
            e < old(self).len_spec(),
        ensures
            final(self).wf(),
            final(self).occupiers@ == old(self).occupiers@.update(e as int, Some(OccupiesTile {})),
            final(self).positions@ == old(self).positions@,
            final(self).viewsheds@ == old(self).viewsheds@,
            final(self).monsters@ == old(self).monsters@,
            final(self).players@ == old(self).players@,
            final(self).player_pos == old(self).player_pos,
    {
        self.occupiers.set(e, Some(OccupiesTile {}));
    }

    /// Marks entity `e` as the player.
    pub fn with_player(&mut self, e: usize)
        requires
            old(self).wf(),
            e < old(self).len_spec(),
        ensures
            final(self).wf(),
            final(self).players@ == old(self).players@.update(e as int, Some(Player {})),
            final(self).positions@ == old(self).positions@,
            final(self).viewsheds@ == old(self).viewsheds@,
            final(self).monsters@ == old(self).monsters@,
            final(self).occupiers@ == old(self).occupiers@,
            final(self).player_pos == old(self).player_pos,
    {
        self.players.set(e, Some(Player {}));
    }
}

} // verus!
