//! Atomic structures: a box, and atoms in it.
use crate::number::{Real, is_float_literal};
use crate::text::{Text, views};
use vstd::prelude::*;

verus! {

/// A point or a vector in space.
#[derive(Debug)]
pub struct Triple<T> {
    /// The first component.
    pub x: T,
    /// The second component.
    pub y: T,
    /// The third component.
    pub z: T,
}

impl<T: View> View for Triple<T> {
    type V = Triple<T::V>;

    open spec fn view(&self) -> Triple<T::V> {
        Triple { x: self.x@, y: self.y@, z: self.z@ }
    }
}

/// The bounds of a triclinic box, and its tilt factors.
#[derive(Debug)]
pub struct Bounds<T> {
    /// Where the box and its tilts start along the first axis.
    pub xlo_bound: T,
    /// Where they end.
    pub xhi_bound: T,
    /// Where the box and its tilts start along the second axis.
    pub ylo_bound: T,
    /// Where they end.
    pub yhi_bound: T,
    /// Where the box starts along the third axis.
    pub zlo_bound: T,
    /// Where it ends.
    pub zhi_bound: T,
    /// The tilt of the second edge along the first axis.
    pub xy: T,
    /// The tilt of the third edge along the first axis.
    pub xz: T,
    /// The tilt of the third edge along the second axis.
    pub yz: T,
}

impl<T: View> View for Bounds<T> {
    type V = Bounds<T::V>;

    open spec fn view(&self) -> Bounds<T::V> {
        Bounds {
            xlo_bound: self.xlo_bound@,
            xhi_bound: self.xhi_bound@,
            ylo_bound: self.ylo_bound@,
            yhi_bound: self.yhi_bound@,
            zlo_bound: self.zlo_bound@,
            zhi_bound: self.zhi_bound@,
            xy: self.xy@,
            xz: self.xz@,
            yz: self.yz@,
        }
    }
}

/// The bounds of a box as they were read.
pub type BoxBounds = Bounds<Real>;

/// An atom: its number, its type, and where it is.
#[derive(Debug)]
pub struct Atom<T> {
    /// The number of the atom.
    pub id: usize,
    /// The type of the atom.
    pub atom_type: usize,
    /// The coordinates of the atom.
    pub position: Triple<T>,
}

impl<T: View> View for Atom<T> {
    type V = Atom<T::V>;

    open spec fn view(&self) -> Atom<T::V> {
        Atom { id: self.id, atom_type: self.atom_type, position: self.position@ }
    }
}

/// An atom as it was read.
pub type DumpAtom = Atom<Real>;

/// What coordinates are measured by.
#[derive(Clone, Copy, PartialEq, Eq, Structural, Debug)]
pub enum Coordinates {
    /// By the edges of the box.
    Scaled,
    /// By the axes.
    Cartesian,
}

/// The atoms at one step of a simulation.
pub struct DumpFrame {
    /// The step.
    pub timestep: i64,
    /// The box.
    pub bounds: BoxBounds,
    /// What the coordinates of the atoms are measured by.
    pub coordinates: Coordinates,
    /// The atoms, by rising number.
    pub atoms: Vec<DumpAtom>,
}

/// What a frame stands for.
pub ghost struct FrameModel {
    /// The step.
    pub timestep: i64,
    /// The box.
    pub bounds: Bounds<Text>,
    /// What the coordinates of the atoms are measured by.
    pub coordinates: Coordinates,
    /// The atoms.
    pub atoms: Seq<Atom<Text>>,
}

impl View for DumpFrame {
    type V = FrameModel;

    open spec fn view(&self) -> FrameModel {
        FrameModel {
            timestep: self.timestep,
            bounds: self.bounds@,
            coordinates: self.coordinates,
            atoms: views(self.atoms@),
        }
    }
}

impl Clone for Triple<Real> {
    fn clone(&self) -> (r: Triple<Real>)
        ensures
            r == *self,
    {
        Triple { x: self.x.clone(), y: self.y.clone(), z: self.z.clone() }
    }
}

impl Clone for Atom<Real> {
    fn clone(&self) -> (r: Atom<Real>)
        ensures
            r == *self,
    {
        Atom { id: self.id, atom_type: self.atom_type, position: self.position.clone() }
    }
}

/// Whether three texts are floating-point literals.
pub open spec fn are_literals(t: Triple<Text>) -> bool {
    is_float_literal(t.x) && is_float_literal(t.y) && is_float_literal(t.z)
}

/// Whether bounds are written as floating-point literals.
pub open spec fn bounds_are_literals(b: Bounds<Text>) -> bool {
    &&& are_literals(Triple { x: b.xlo_bound, y: b.xhi_bound, z: b.xy })
    &&& are_literals(Triple { x: b.ylo_bound, y: b.yhi_bound, z: b.xz })
    &&& are_literals(Triple { x: b.zlo_bound, y: b.zhi_bound, z: b.yz })
}

/// Whether the coordinates of atoms are written as floating-point literals.
pub open spec fn atoms_are_literals(atoms: Seq<Atom<Text>>) -> bool {
    forall|j: int| 0 <= j < atoms.len() ==> are_literals(#[trigger] atoms[j].position)
}

} // verus!
