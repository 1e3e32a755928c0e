//! The rule pipeline: per-cell observations, individual update rules, and
//! the ordered rule engine that cascades them.

use vstd::prelude::*;

use crate::grid::Grid;

verus! {

/// Ephemeral per-cell observation handed to the rules during one step:
/// the cell's position, its current alive flag, and its live-neighbor
/// count as read from the pre-step grid.
#[derive(Debug, Clone, Copy, PartialEq, Eq, Structural)]
pub struct CellState {
    pub x: usize,
    pub y: usize,
    pub alive: bool,
    pub neighbors_alive: u8,
}

/// Next alive flag under the default Conway rule: a live cell survives
/// with 2 or 3 live neighbors and otherwise dies; a dead cell is born
/// with exactly 3 live neighbors and otherwise stays dead.
pub open spec fn conway_next(alive: bool, neighbors: nat) -> bool {
    if alive {
        2 <= neighbors <= 3
    } else {
        neighbors == 3
    }
}

/// One update rule: a pure mapping from a cell observation to the cell's
/// next alive flag.
#[derive(Debug, Clone, Copy, PartialEq, Eq, Structural)]
pub enum Rule {
    /// The default Conway rule (see `conway_next`).
    Conway,
    /// A sterility zone: cells outside the given inclusive rectangle are
    /// forced dead; cells inside pass through unchanged.
    SterileOutside { min_x: usize, min_y: usize, max_x: usize, max_y: usize },
}

/// What one rule decides for a cell at `(x, y)` whose incoming alive flag
/// is `alive` and whose pre-step live-neighbor count is `neighbors`.
pub open spec fn rule_next(r: Rule, x: int, y: int, alive: bool, neighbors: nat) -> bool {
    match r {
        Rule::Conway => conway_next(alive, neighbors),
        Rule::SterileOutside { min_x, min_y, max_x, max_y } => if min_x <= x <= max_x && min_y <= y
            <= max_y {
            alive
        } else {
            false
        },
    }
}

/// What an ordered rule list decides: rules run in registration order and
/// cascade on the alive flag, while the neighbor count stays fixed at the
/// pre-step value. An empty list leaves the flag unchanged.
pub open spec fn rules_next(rules: Seq<Rule>, x: int, y: int, alive: bool, neighbors: nat) -> bool
    decreases rules.len(),
{
    if rules.len() == 0 {
        alive
    } else {
        rules_next(rules.drop_first(), x, y, rule_next(rules[0], x, y, alive, neighbors), neighbors)
    }
}

/// The default Conway rule as a standalone evaluator. The grid itself is
/// not consulted: the observation already carries everything the rule
/// reads.
pub fn conway_rules(_grid: &Grid, cell: CellState) -> (alive: bool)
    ensures
        alive == conway_next(cell.alive, cell.neighbors_alive as nat),
{
    if cell.alive && cell.neighbors_alive > 3 {
        false
    } else if cell.alive && cell.neighbors_alive < 2 {
        false
    } else if !cell.alive {
        cell.neighbors_alive == 3
    } else {
        cell.alive
    }
}

impl Rule {
    /// Evaluates this rule on one cell observation.
    pub fn eval(&self, grid: &Grid, cell: CellState) -> (alive: bool)
        ensures
            alive == rule_next(*self, cell.x as int, cell.y as int, cell.alive,
                cell.neighbors_alive as nat),
    {
        match self {
            Rule::Conway => conway_rules(grid, cell),
            Rule::SterileOutside { min_x, min_y, max_x, max_y } => {
                if *min_x <= cell.x && cell.x <= *max_x && *min_y <= cell.y && cell.y <= *max_y {
                    cell.alive
                } else {
                    false
                }
            },
        }
    }
}

/// The rule engine: an ordered list of rules, evaluated in registration
/// order.
pub struct CellRules {
    rules: Vec<Rule>,
}

impl View for CellRules {
    type V = Seq<Rule>;

    closed spec fn view(&self) -> Seq<Rule> {
        self.rules@
    }
}

impl CellRules {
    /// An engine with no rules: it leaves every cell unchanged.
    pub fn new() -> (r: CellRules)
        ensures
            r@.len() == 0,
    {
        CellRules { rules: Vec::new() }
    }

    /// An engine preloaded with the default Conway rule.
    pub fn conway() -> (r: CellRules)
        ensures
            r@ =~= seq![Rule::Conway],
    {
        let mut r = CellRules::new();
        r.add_rule(Rule::Conway);
        r
    }

    /// Appends a rule after the ones already registered.
    pub fn add_rule(&mut self, rule: Rule)
        ensures
            final(self)@ == old(self)@.push(rule),
    {
        self.rules.push(rule);
    }

    /// Number of registered rules.
    pub fn num_rules(&self) -> (n: usize)
        ensures
            n == self@.len(),
    {
        self.rules.len()
    }

    /// The rule at position `i` in registration order.
    pub fn rule_at(&self, i: usize) -> (r: Rule)
        requires
            i < self@.len(),
        ensures
            r == self@[i as int],
    {
        self.rules[i]
    }

    /// Folds the whole pipeline over one cell observation: each rule's
    /// output alive flag feeds the next rule's input, while the neighbor
    /// count stays at the pre-step value.
    pub fn apply_all(&self, grid: &Grid, cell: CellState) -> (alive: bool)
        ensures
            alive == rules_next(self@, cell.x as int, cell.y as int, cell.alive,
                cell.neighbors_alive as nat),
    {
        let n = self.rules.len();
        let mut state = cell;
        let mut i: usize = 0;
        proof {
            assert(self@.subrange(0, n as int) =~= self@);
        }
        while i < n
            invariant
                i <= n,
                n == self@.len(),
                state.x == cell.x,
                state.y == cell.y,
                state.neighbors_alive == cell.neighbors_alive,
                rules_next(self@, cell.x as int, cell.y as int, cell.alive,
                    cell.neighbors_alive as nat) == rules_next(self@.subrange(i as int, n as int),
                    cell.x as int, cell.y as int, state.alive, cell.neighbors_alive as nat),
            decreases n - i,
        {
            let rule = self.rules[i];
            proof {
                let rest = self@.subrange(i as int, n as int);
                assert(rest.drop_first() =~= self@.subrange(i as int + 1, n as int));
                assert(rest[0] == self@[i as int]);
            }
            state.alive = rule.eval(grid, state);
            i += 1;
        }
        proof {
            assert(self@.subrange(n as int, n as int) =~= Seq::<Rule>::empty());
        }
        state.alive
    }
}

} // verus!
