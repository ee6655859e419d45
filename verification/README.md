# particle_sim

A 2D particle simulation in which particles attract and repel one another,
age as they move, and mate in small groups to produce children whose genome
mixes and mutates their parents'.

The crate is split in two:

- `src/` is a library verified with Verus. It holds the parts of the
  simulation that are not floating-point arithmetic:
  - `matrix`: the table of interaction coefficients between particle types;
  - `registry`: the registry of particle types;
  - `grid`: the spatial hash grid, wrapping at the world's edges, that finds
    the particles in the 3 x 3 block of cells around a cell;
  - `controls`: the running/paused state, the rule sets, what the control
    buttons do, the status texts, and how many children a tick may produce;
  - `mating`: how a mating group is formed around an initiator.
- `app/` is the Bevy program: rendering, the user interface, and the
  floating-point physics and genetics, calling the library for the above.
