//! Structures in the LAMMPS data format, and the structure that stands in for one that is missing.
use crate::effects::{failed_read, read_failure};
use crate::fields::{number_in, parse_number};
use crate::number::Real;
use crate::structure::{Atom, Bounds, BoxBounds, DumpAtom, Triple};
use crate::text::{
    Text, lemma_views_push, lines, lines_of, option_view, result_view, same, text2, text3, trim,
    trimmed, views, words, words_of,
};
use vstd::prelude::*;

verus! {

/// Where something starts and ends along an axis.
pub struct Extent<T> {
    /// Where it starts.
    pub lo: T,
    /// Where it ends.
    pub hi: T,
}

impl<T: View> View for Extent<T> {
    type V = Extent<T::V>;

    open spec fn view(&self) -> Extent<T::V> {
        Extent { lo: self.lo@, hi: self.hi@ }
    }
}

/// What the lines of a data file have given so far.
pub ghost struct DataModel {
    /// The box along the first axis.
    pub x: Option<Extent<Text>>,
    /// The box along the second axis.
    pub y: Option<Extent<Text>>,
    /// The box along the third axis.
    pub z: Option<Extent<Text>>,
    /// The tilt factors xy, xz and yz.
    pub tilt: Triple<Text>,
    /// Whether the section of atoms has begun.
    pub in_atoms: bool,
    /// The atoms.
    pub atoms: Seq<Atom<Text>>,
}

/// What is known before the first line: no box, no tilt and no atoms.
pub open spec fn no_data() -> DataModel {
    DataModel {
        x: None,
        y: None,
        z: None,
        tilt: Triple { x: "0.0"@, y: "0.0"@, z: "0.0"@ },
        in_atoms: false,
        atoms: Seq::empty(),
    }
}

/// Whether the fields are two ends along an axis, by the names after them.
pub open spec fn names_extent(fields: Seq<Text>, lo: Text, hi: Text) -> bool {
    fields.len() >= 4 && fields[2] == lo && fields[3] == hi
}

/// The two ends in the first two fields.
pub open spec fn extent_in(fields: Seq<Text>, lo: Text, hi: Text) -> Result<Extent<Text>, Text> {
    match number_in::<Real>(fields[0], lo) {
        Err(e) => Err(e),
        Ok(l) => match number_in::<Real>(fields[1], hi) {
            Err(e) => Err(e),
            Ok(h) => Ok(Extent { lo: l, hi: h }),
        },
    }
}

/// Three numbers in the fields from `at` on.
pub open spec fn numbers_in(fields: Seq<Text>, at: int, x: Text, y: Text, z: Text) -> Result<
    Triple<Text>,
    Text,
> {
    match number_in::<Real>(fields[at], x) {
        Err(e) => Err(e),
        Ok(a) => match number_in::<Real>(fields[at + 1], y) {
            Err(e) => Err(e),
            Ok(b) => match number_in::<Real>(fields[at + 2], z) {
                Err(e) => Err(e),
                Ok(c) => Ok(Triple { x: a, y: b, z: c }),
            },
        },
    }
}

/// The atom in a line of the section of atoms.
pub open spec fn data_atom(fields: Seq<Text>) -> Result<Atom<Text>, Text> {
    match number_in::<usize>(fields[0], "atom id"@) {
        Err(e) => Err(e),
        Ok(id) => match number_in::<usize>(fields[1], "atom type"@) {
            Err(e) => Err(e),
            Ok(atom_type) => match numbers_in(fields, 2, "x"@, "y"@, "z"@) {
                Err(e) => Err(e),
                Ok(position) => Ok(Atom { id, atom_type, position }),
            },
        },
    }
}

/// What is known after one more line, of which the words are `fields`.
pub open spec fn with_line(known: DataModel, fields: Seq<Text>) -> Result<DataModel, Text> {
    if names_extent(fields, "xlo"@, "xhi"@) {
        match extent_in(fields, "xlo"@, "xhi"@) {
            Err(e) => Err(e),
            Ok(extent) => Ok(DataModel { x: Some(extent), ..known }),
        }
    } else if names_extent(fields, "ylo"@, "yhi"@) {
        match extent_in(fields, "ylo"@, "yhi"@) {
            Err(e) => Err(e),
            Ok(extent) => Ok(DataModel { y: Some(extent), ..known }),
        }
    } else if names_extent(fields, "zlo"@, "zhi"@) {
        match extent_in(fields, "zlo"@, "zhi"@) {
            Err(e) => Err(e),
            Ok(extent) => Ok(DataModel { z: Some(extent), ..known }),
        }
    } else if fields.len() >= 6 && fields[3] == "xy"@ && fields[4] == "xz"@ && fields[5] == "yz"@ {
        match numbers_in(fields, 0, "xy"@, "xz"@, "yz"@) {
            Err(e) => Err(e),
            Ok(tilt) => Ok(DataModel { tilt, ..known }),
        }
    } else if fields.len() >= 1 && fields[0] == "Atoms"@ {
        Ok(DataModel { in_atoms: true, ..known })
    } else if known.in_atoms && fields.len() >= 5 {
        match data_atom(fields) {
            Err(e) => Err(e),
            Ok(atom) => Ok(DataModel { atoms: known.atoms.push(atom), ..known }),
        }
    } else {
        Ok(known)
    }
}

/// What is known after all lines.
pub open spec fn with_lines(known: DataModel, lines: Seq<Text>) -> Result<DataModel, Text>
    decreases lines.len(),
{
    if lines.len() == 0 {
        Ok(known)
    } else {
        match with_line(known, words_of(trimmed(lines[0]))) {
            Err(e) => Err(e),
            Ok(more) => with_lines(more, lines.drop_first()),
        }
    }
}

/// A box and the atoms in it.
pub ghost struct StructureModel {
    /// The box.
    pub bounds: Bounds<Text>,
    /// The atoms.
    pub atoms: Seq<Atom<Text>>,
}

/// The structure that is known, where all of it is; `path` says where it was read from.
pub open spec fn complete_structure(known: DataModel, path: Text) -> Result<StructureModel, Text> {
    if known.atoms.len() == 0 {
        Err("No atoms found in LAMMPS data file "@ + path)
    } else {
        match (known.x, known.y, known.z) {
            (None, _, _) => Err("Missing xlo/xhi bounds"@),
            (_, None, _) => Err("Missing ylo/yhi bounds"@),
            (_, _, None) => Err("Missing zlo/zhi bounds"@),
            (Some(x), Some(y), Some(z)) => Ok(
                StructureModel {
                    bounds: Bounds {
                        xlo_bound: x.lo,
                        xhi_bound: x.hi,
                        ylo_bound: y.lo,
                        yhi_bound: y.hi,
                        zlo_bound: z.lo,
                        zhi_bound: z.hi,
                        xy: known.tilt.x,
                        xz: known.tilt.y,
                        yz: known.tilt.z,
                    },
                    atoms: known.atoms,
                },
            ),
        }
    }
}

/// The structure in the text of a data file.
pub open spec fn structure_in(text: Text, path: Text) -> Result<StructureModel, Text> {
    match with_lines(no_data(), lines_of(text)) {
        Err(e) => Err(e),
        Ok(known) => complete_structure(known, path),
    }
}

/// A box and the atoms in it.
pub struct Structure {
    /// The box.
    pub bounds: BoxBounds,
    /// The atoms.
    pub atoms: Vec<DumpAtom>,
}

impl View for Structure {
    type V = StructureModel;

    open spec fn view(&self) -> StructureModel {
        StructureModel { bounds: self.bounds@, atoms: views(self.atoms@) }
    }
}

/// What the lines of a data file have given so far.
struct Data {
    x: Option<Extent<Real>>,
    y: Option<Extent<Real>>,
    z: Option<Extent<Real>>,
    tilt: Triple<Real>,
    in_atoms: bool,
    atoms: Vec<DumpAtom>,
}

impl View for Data {
    type V = DataModel;

    closed spec fn view(&self) -> DataModel {
        DataModel {
            x: option_view(self.x),
            y: option_view(self.y),
            z: option_view(self.z),
            tilt: self.tilt@,
            in_atoms: self.in_atoms,
            atoms: views(self.atoms@),
        }
    }
}

/// Whether the fields are two ends along an axis.
fn named_extent(fields: &Vec<String>, lo: &str, hi: &str) -> (r: bool)
    ensures
        r == names_extent(views(fields@), lo@, hi@),
{
    fields.len() >= 4 && same(fields[2].as_str(), lo) && same(fields[3].as_str(), hi)
}

/// The two ends in the first two fields.
fn parse_extent(fields: &Vec<String>, lo: &str, hi: &str) -> (r: Result<Extent<Real>, String>)
    requires
        fields@.len() >= 2,
    ensures
        result_view(r) == extent_in(views(fields@), lo@, hi@),
{
    let l = match parse_number::<Real>(fields[0].as_str(), lo) {
        Ok(l) => l,
        Err(e) => {
            return Err(e);
        },
    };
    let h = match parse_number::<Real>(fields[1].as_str(), hi) {
        Ok(h) => h,
        Err(e) => {
            return Err(e);
        },
    };
    Ok(Extent { lo: l, hi: h })
}

/// Three numbers in the fields from `at` on.
fn parse_numbers(fields: &Vec<String>, at: usize, x: &str, y: &str, z: &str) -> (r: Result<
    Triple<Real>,
    String,
>)
    requires
        at + 3 <= fields@.len(),
    ensures
        result_view(r) == numbers_in(views(fields@), at as int, x@, y@, z@),
{
    assert(fields.len() == fields@.len());
    let a = match parse_number::<Real>(fields[at].as_str(), x) {
        Ok(a) => a,
        Err(e) => {
            return Err(e);
        },
    };
    let b = match parse_number::<Real>(fields[at + 1].as_str(), y) {
        Ok(b) => b,
        Err(e) => {
            return Err(e);
        },
    };
    let c = match parse_number::<Real>(fields[at + 2].as_str(), z) {
        Ok(c) => c,
        Err(e) => {
            return Err(e);
        },
    };
    Ok(Triple { x: a, y: b, z: c })
}

/// The atom in a line of the section of atoms.
fn parse_data_atom(fields: &Vec<String>) -> (r: Result<DumpAtom, String>)
    requires
        fields@.len() >= 5,
    ensures
        result_view(r) == data_atom(views(fields@)),
{
    let id = match parse_number::<usize>(fields[0].as_str(), "atom id") {
        Ok(id) => id,
        Err(e) => {
            return Err(e);
        },
    };
    let atom_type = match parse_number::<usize>(fields[1].as_str(), "atom type") {
        Ok(atom_type) => atom_type,
        Err(e) => {
            return Err(e);
        },
    };
    match parse_numbers(fields, 2, "x", "y", "z") {
        Ok(position) => Ok(Atom { id, atom_type, position }),
        Err(e) => Err(e),
    }
}

/// Takes in one more line.
fn take_line(known: &mut Data, fields: &Vec<String>) -> (r: Result<(), String>)
    ensures
        match r {
            Ok(_) => with_line(old(known)@, views(fields@)) == Ok::<DataModel, Text>(
                final(known)@,
            ),
            Err(e) => with_line(old(known)@, views(fields@)) == Err::<DataModel, Text>(e@)
                && final(known)@ == old(known)@,
        },
{
    let ghost all = views(fields@);
    assert(all.len() == fields@.len());
    if named_extent(fields, "xlo", "xhi") {
        match parse_extent(fields, "xlo", "xhi") {
            Ok(extent) => {
                known.x = Some(extent);
            },
            Err(e) => {
                return Err(e);
            },
        }
    } else if named_extent(fields, "ylo", "yhi") {
        match parse_extent(fields, "ylo", "yhi") {
            Ok(extent) => {
                known.y = Some(extent);
            },
            Err(e) => {
                return Err(e);
            },
        }
    } else if named_extent(fields, "zlo", "zhi") {
        match parse_extent(fields, "zlo", "zhi") {
            Ok(extent) => {
                known.z = Some(extent);
            },
            Err(e) => {
                return Err(e);
            },
        }
    } else if fields.len() >= 6 && same(fields[3].as_str(), "xy") && same(fields[4].as_str(), "xz")
        && same(fields[5].as_str(), "yz") {
        match parse_numbers(fields, 0, "xy", "xz", "yz") {
            Ok(tilt) => {
                known.tilt = tilt;
            },
            Err(e) => {
                return Err(e);
            },
        }
    } else if fields.len() >= 1 && same(fields[0].as_str(), "Atoms") {
        known.in_atoms = true;
    } else if known.in_atoms && fields.len() >= 5 {
        match parse_data_atom(fields) {
            Ok(atom) => {
                proof {
                    lemma_views_push(known.atoms@, atom);
                }
                known.atoms.push(atom);
            },
            Err(e) => {
                return Err(e);
            },
        }
    }
    Ok(())
}

/// A literal as a number.
fn literal(s: &str) -> (r: Real)
    ensures
        r@ == s@,
{
    Real { literal: s.to_owned() }
}

/// The structure in the text of a data file; `path` says where the text comes from.
pub fn read_lammps_data(text: &str, path: &str) -> (r: Result<Structure, String>)
    ensures
        result_view(r) == structure_in(text@, path@),
{
    let all = lines(text);
    let ghost rows = lines_of(text@);
    let mut known = Data {
        x: None,
        y: None,
        z: None,
        tilt: Triple { x: literal("0.0"), y: literal("0.0"), z: literal("0.0") },
        in_atoms: false,
        atoms: Vec::new(),
    };
    let mut i: usize = 0;
    proof {
        assert(rows.skip(0) =~= rows);
        assert(views(known.atoms@) =~= Seq::<Atom<Text>>::empty());
    }
    while i < all.len()
        invariant
            i <= all@.len(),
            views(all@) == rows,
            rows == lines_of(text@),
            with_lines(known@, rows.skip(i as int)) == with_lines(no_data(), rows),
        decreases all@.len() - i,
    {
        assert(rows.skip(i as int)[0] == all@[i as int]@);
        assert(rows.skip(i as int).drop_first() =~= rows.skip(i + 1));
        let trimmed_line = trim(all[i].as_str());
        let fields = words(trimmed_line.as_str());
        match take_line(&mut known, &fields) {
            Ok(_) => {},
            Err(e) => {
                return Err(e);
            },
        }
        i += 1;
    }
    assert(rows.skip(i as int) =~= Seq::<Text>::empty());
    if known.atoms.len() == 0 {
        return Err(text2("No atoms found in LAMMPS data file ", path));
    }
    let Data { x, y, z, tilt, in_atoms: _, atoms } = known;
    let x = match x {
        Some(x) => x,
        None => {
            return Err("Missing xlo/xhi bounds".to_owned());
        },
    };
    let y = match y {
        Some(y) => y,
        None => {
            return Err("Missing ylo/yhi bounds".to_owned());
        },
    };
    let z = match z {
        Some(z) => z,
        None => {
            return Err("Missing zlo/zhi bounds".to_owned());
        },
    };
    Ok(
        Structure {
            bounds: Bounds {
                xlo_bound: x.lo,
                xhi_bound: x.hi,
                ylo_bound: y.lo,
                yhi_bound: y.hi,
                zlo_bound: z.lo,
                zhi_bound: z.hi,
                xy: tilt.x,
                xz: tilt.y,
                yz: tilt.z,
            },
            atoms,
        },
    )
}

/// The literal of an odd number below ten.
pub open spec fn odd_literal(n: int) -> Text {
    if n == 0 {
        "1.0"@
    } else if n == 1 {
        "3.0"@
    } else if n == 2 {
        "5.0"@
    } else {
        "7.0"@
    }
}

/// The atom at a place of the structure that stands in for a missing one: the atoms are numbered
/// from one, of types one and two in turn, and stand two apart on a square grid of four by four.
pub open spec fn fallback_atom(index: int) -> Atom<Text> {
    Atom {
        id: (index + 1) as usize,
        atom_type: if index % 2 == 0 {
            1
        } else {
            2
        },
        position: Triple {
            x: odd_literal(index % 4),
            y: odd_literal((index / 4) % 4),
            z: "5.0"@,
        },
    }
}

/// The structure that stands in for a missing one: sixteen atoms in a cube of edge ten.
pub open spec fn fallback_structure() -> StructureModel {
    StructureModel {
        bounds: Bounds {
            xlo_bound: "0.0"@,
            xhi_bound: "10.0"@,
            ylo_bound: "0.0"@,
            yhi_bound: "10.0"@,
            zlo_bound: "0.0"@,
            zhi_bound: "10.0"@,
            xy: "0.0"@,
            xz: "0.0"@,
            yz: "0.0"@,
        },
        atoms: Seq::new(16, |index: int| fallback_atom(index)),
    }
}

/// The literal of an odd number below ten.
fn odd(n: usize) -> (r: Real)
    ensures
        r@ == odd_literal(n as int),
{
    if n == 0 {
        literal("1.0")
    } else if n == 1 {
        literal("3.0")
    } else if n == 2 {
        literal("5.0")
    } else {
        literal("7.0")
    }
}

/// The structure that stands in for a missing one.
pub fn fallback_lammps_data() -> (r: Structure)
    ensures
        r@ == fallback_structure(),
{
    let mut atoms: Vec<DumpAtom> = Vec::new();
    let ghost expected = fallback_structure().atoms;
    assert(views(atoms@) =~= expected.take(0));
    let mut index: usize = 0;
    while index < 16
        invariant
            index <= 16,
            expected == fallback_structure().atoms,
            views(atoms@) == expected.take(index as int),
        decreases 16 - index,
    {
        let atom = Atom {
            id: index + 1,
            atom_type: if index % 2 == 0 {
                1
            } else {
                2
            },
            position: Triple { x: odd(index % 4), y: odd((index / 4) % 4), z: literal("5.0") },
        };
        proof {
            assert(atom@ == fallback_atom(index as int));
            lemma_views_push(atoms@, atom);
            assert(expected.take(index + 1) =~= expected.take(index as int).push(
                expected[index as int],
            ));
        }
        atoms.push(atom);
        index += 1;
    }
    assert(expected.take(16) =~= expected);
    Structure {
        bounds: Bounds {
            xlo_bound: literal("0.0"),
            xhi_bound: literal("10.0"),
            ylo_bound: literal("0.0"),
            yhi_bound: literal("10.0"),
            zlo_bound: literal("0.0"),
            zhi_bound: literal("10.0"),
            xy: literal("0.0"),
            xz: literal("0.0"),
            yz: literal("0.0"),
        },
        atoms,
    }
}

/// The structure that a mock trajectory starts from, and what is said where it had to stand in.
pub struct MockSource {
    /// The structure.
    pub structure: Structure,
    /// What is said where the structure could not be read.
    pub notice: Option<String>,
}

/// What is said where the structure could not be read.
pub open spec fn fallback_notice(error: Text) -> Text {
    " ⚠️  Could not read LAMMPS data for mock trajectory ("@ + error
        + "); using fallback mock atoms."@
}

/// The structure in a data file, or why it is not known. `data` is the text of the file, or why it
/// cannot be read.
pub open spec fn known_structure(data: Result<Text, Text>, path: Text) -> Result<
    StructureModel,
    Text,
> {
    match data {
        Ok(text) => structure_in(text, path),
        Err(e) => Err(read_failure(path, e)),
    }
}

/// The structure that a mock trajectory starts from: the one that is known, and else the one that
/// stands in.
pub open spec fn source_structure(known: Result<StructureModel, Text>) -> StructureModel {
    match known {
        Ok(structure) => structure,
        Err(_) => fallback_structure(),
    }
}

/// What is said of the structure that a mock trajectory starts from.
pub open spec fn source_notice(known: Result<StructureModel, Text>) -> Option<Text> {
    match known {
        Ok(_) => None,
        Err(e) => Some(fallback_notice(e)),
    }
}

/// The structure that a mock trajectory starts from: the one in the data file, of which `data` is
/// the text or why there is none, and else the one that stands in.
pub fn mock_source(data: &Result<String, String>, path: &str) -> (r: MockSource)
    ensures
        r.structure@ == source_structure(known_structure(result_view(*data), path@)),
        option_view(r.notice) == source_notice(known_structure(result_view(*data), path@)),
{
    let error = match data {
        Ok(text) => match read_lammps_data(text.as_str(), path) {
            Ok(structure) => {
                return MockSource { structure, notice: None };
            },
            Err(e) => e,
        },
        Err(e) => failed_read(path, e.as_str()),
    };
    MockSource {
        structure: fallback_lammps_data(),
        notice: Some(
            text3(
                " ⚠️  Could not read LAMMPS data for mock trajectory (",
                error.as_str(),
                "); using fallback mock atoms.",
            ),
        ),
    }
}

} // verus!
