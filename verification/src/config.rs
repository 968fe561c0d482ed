//! Circuit configuration: column bookkeeping and registered identities.
//!
//! Columns and gates are created once, before any witness is assigned, and
//! are immutable afterwards.  The product circuit's own configuration — two
//! advice columns, one instance column and optionally a fixed selector —
//! is built by [`configure`].

use crate::columns::{Column, ColumnKind, Rotation};
use crate::expr::Expr;
use vstd::prelude::*;

verus! {

/// How the product gate applies to rows.
#[derive(Clone, Copy, Debug, PartialEq, Eq, Structural)]
pub enum GateMode {
    /// One single-row region per witness pair, gated by a fixed selector.
    SelectorGated,
    /// One region spanning many rows; every used row is constrained.
    Unconditional,
}

/// A named polynomial identity, optionally gated by a fixed selector column.
///
/// With a selector present, only rows whose selector cell holds a nonzero
/// value are constrained.
pub struct Gate {
    pub name: String,
    pub poly: Expr,
    pub selector: Option<Column>,
}

impl Gate {
    /// Well-formedness: a valid polynomial, and any selector is a fixed column.
    pub open spec fn wf(self) -> bool {
        &&& self.poly.wf()
        &&& (self.selector matches Some(s) ==> s.kind == ColumnKind::Fixed)
    }
}

/// The one-time circuit description: how many columns of each kind exist,
/// and the registered gates.
pub struct ConstraintSystem {
    pub n_advice: usize,
    pub n_fixed: usize,
    pub n_instance: usize,
    pub gates: Vec<Gate>,
}

impl ConstraintSystem {
    /// Well-formedness: every registered gate is well formed.
    pub open spec fn wf(self) -> bool {
        forall|i: int| 0 <= i < self.gates@.len() ==> (#[trigger] self.gates@[i]).wf()
    }

    /// An empty description: no columns, no gates.
    pub fn new() -> (cs: ConstraintSystem)
        ensures
            cs.wf(),
            cs.n_advice == 0,
            cs.n_fixed == 0,
            cs.n_instance == 0,
            cs.gates@.len() == 0,
    {
        ConstraintSystem { n_advice: 0, n_fixed: 0, n_instance: 0, gates: Vec::new() }
    }

    /// Allocates a fresh, uniquely indexed advice column.
    pub fn advice_column(&mut self) -> (c: Column)
        requires
            old(self).n_advice < usize::MAX,
        ensures
            c == (Column { kind: ColumnKind::Advice, index: old(self).n_advice }),
            *final(self) == (ConstraintSystem {
                n_advice: (old(self).n_advice + 1) as usize,
                ..*old(self)
            }),
    {
        let c = Column { kind: ColumnKind::Advice, index: self.n_advice };
        self.n_advice = self.n_advice + 1;
        c
    }

    /// Allocates a fresh, uniquely indexed fixed column.
    pub fn fixed_column(&mut self) -> (c: Column)
        requires
            old(self).n_fixed < usize::MAX,
        ensures
            c == (Column { kind: ColumnKind::Fixed, index: old(self).n_fixed }),
            *final(self) == (ConstraintSystem {
                n_fixed: (old(self).n_fixed + 1) as usize,
                ..*old(self)
            }),
    {
        let c = Column { kind: ColumnKind::Fixed, index: self.n_fixed };
        self.n_fixed = self.n_fixed + 1;
        c
    }

    /// Allocates a fresh, uniquely indexed instance column.
    pub fn instance_column(&mut self) -> (c: Column)
        requires
            old(self).n_instance < usize::MAX,
        ensures
            c == (Column { kind: ColumnKind::Instance, index: old(self).n_instance }),
            *final(self) == (ConstraintSystem {
                n_instance: (old(self).n_instance + 1) as usize,
                ..*old(self)
            }),
    {
        let c = Column { kind: ColumnKind::Instance, index: self.n_instance };
        self.n_instance = self.n_instance + 1;
        c
    }

    /// Registers a named identity that must come out zero wherever it is live.
    pub fn create_gate(&mut self, name: &str, poly: Expr, selector: Option<Column>)
        requires
            old(self).wf(),
            poly.wf(),
            selector matches Some(s) ==> s.kind == ColumnKind::Fixed,
        ensures
            final(self).wf(),
            final(self).n_advice == old(self).n_advice,
            final(self).n_fixed == old(self).n_fixed,
            final(self).n_instance == old(self).n_instance,
            final(self).gates@.len() == old(self).gates@.len() + 1,
            forall|i: int|
                0 <= i < old(self).gates@.len() ==> final(self).gates@[i] == old(self).gates@[i],
            final(self).gates@.last().name@ == name@,
            final(self).gates@.last().poly == poly,
            final(self).gates@.last().selector == selector,
    {
        let gate = Gate { name: name.to_owned(), poly, selector };
        self.gates.push(gate);
    }
}

/// The columns of the product circuit: advice `a` and `b`, instance `c`,
/// and in selector-gated mode the fixed selector.
#[derive(Clone, Copy, Debug)]
pub struct R1CSConfig {
    pub a: Column,
    pub b: Column,
    pub c: Column,
    pub sel: Option<Column>,
}

impl R1CSConfig {
    /// The config's columns are registered in `cs` and mutually distinct.
    pub open spec fn wf(self, cs: ConstraintSystem) -> bool {
        &&& self.a.kind == ColumnKind::Advice && self.a.index < cs.n_advice
        &&& self.b.kind == ColumnKind::Advice && self.b.index < cs.n_advice
        &&& self.a.index != self.b.index
        &&& self.c.kind == ColumnKind::Instance && self.c.index < cs.n_instance
        &&& (self.sel matches Some(s) ==> (s.kind == ColumnKind::Fixed && s.index < cs.n_fixed))
    }
}

/// The polynomial of the product gate: `c - a*b`, all queried at the current row.
pub open spec fn product_poly(cfg: R1CSConfig) -> Expr {
    Expr::Sub(
        Box::new(Expr::Query(cfg.c, Rotation { offset: 0 })),
        Box::new(
            Expr::Mul(
                Box::new(Expr::Query(cfg.a, Rotation { offset: 0 })),
                Box::new(Expr::Query(cfg.b, Rotation { offset: 0 })),
            ),
        ),
    )
}

/// The one-time circuit description of the product identity `c - a*b`:
/// allocates the columns and registers the single gate, gated by a selector
/// exactly in selector-gated mode.
pub fn configure(mode: GateMode) -> (r: (ConstraintSystem, R1CSConfig))
    ensures
        ({
            let (cs, cfg) = r;
            &&& cs.wf()
            &&& cfg.wf(cs)
            &&& cs.n_advice == 2
            &&& cs.n_fixed == (if mode == GateMode::SelectorGated {
                1int
            } else {
                0int
            })
            &&& cs.n_instance == 1
            &&& cfg.a == (Column { kind: ColumnKind::Advice, index: 0 })
            &&& cfg.b == (Column { kind: ColumnKind::Advice, index: 1 })
            &&& cfg.c == (Column { kind: ColumnKind::Instance, index: 0 })
            &&& cfg.sel == (if mode == GateMode::SelectorGated {
                Some(Column { kind: ColumnKind::Fixed, index: 0 })
            } else {
                None::<Column>
            })
            &&& cs.gates@.len() == 1
            &&& cs.gates@[0].poly == product_poly(cfg)
            &&& cs.gates@[0].selector == cfg.sel
            &&& cs.gates@[0].name@ == "c-a*b"@
        }),
{
    let mut cs = ConstraintSystem::new();
    let a = cs.advice_column();
    let b = cs.advice_column();
    let c = cs.instance_column();
    let sel = match mode {
        GateMode::SelectorGated => Some(cs.fixed_column()),
        GateMode::Unconditional => None,
    };
    let poly = Expr::Sub(
        Box::new(Expr::Query(c, Rotation::cur())),
        Box::new(
            Expr::Mul(
                Box::new(Expr::Query(a, Rotation::cur())),
                Box::new(Expr::Query(b, Rotation::cur())),
            ),
        ),
    );
    let cfg = R1CSConfig { a, b, c, sel };
    proof {
        assert(poly.wf()) by { reveal_with_fuel(Expr::wf, 4); }
    }
    cs.create_gate("c-a*b", poly, sel);
    (cs, cfg)
}

} // verus!
