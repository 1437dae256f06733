//! Trajectories in the LAMMPS dump format.
use crate::fields::{
    Lines, column_in, column_index, dropped, expect_item, field_in, item_line, lemma_dropped,
    line_at, line_value, parse_field, parse_next,
};
use crate::number::{Real, Token, decimal, decimal_of};
use crate::order::{as_ints, positions, sorted_positions, stable_order};
use crate::structure::{
    Atom, Bounds, BoxBounds, Coordinates, DumpAtom, DumpFrame, FrameModel, Triple,
};
use crate::text::{
    Text, after, lemma_after_empty, lemma_after_push, lemma_views_push, lines_of, result_view, same,
    starts_with, text2, text3, text5, trim, trimmed, views, words, words_of,
};
use vstd::prelude::*;

verus! {

/// The numbers that words denote; the first that denotes none decides the error.
pub open spec fn bound_values(words: Seq<Text>, label: Text) -> Result<Seq<Text>, Text>
    decreases words.len(),
{
    if words.len() == 0 {
        Ok(Seq::empty())
    } else {
        match <Real as Token>::read(words[0]) {
            Ok(v) => after(seq![v], bound_values(words.drop_first(), label)),
            Err(e) => Err("Invalid "@ + label + " value '"@ + words[0] + "': "@ + e),
        }
    }
}

/// The three numbers on a line of box bounds.
pub open spec fn bound_line(line: Option<Text>, label: Text) -> Result<Triple<Text>, Text> {
    match line {
        None => Err("Unexpected end of dump while reading "@ + label),
        Some(line) => match bound_values(words_of(line), label) {
            Err(e) => Err(e),
            Ok(values) => if values.len() == 3 {
                Ok(Triple { x: values[0], y: values[1], z: values[2] })
            } else {
                Err(
                    "Expected three values for "@ + label + ", found "@ + decimal_of(
                        values.len(),
                    ),
                )
            },
        },
    }
}

/// The numbers that words denote.
fn parse_bound_values(words: &Vec<String>, label: &str) -> (r: Result<Vec<Real>, String>)
    ensures
        match r {
            Ok(values) => bound_values(views(words@), label@) == Ok::<Seq<Text>, Text>(
                views(values@),
            ),
            Err(e) => bound_values(views(words@), label@) == Err::<Seq<Text>, Text>(e@),
        },
{
    let mut out: Vec<Real> = Vec::new();
    let mut i: usize = 0;
    let ghost all = views(words@);
    proof {
        assert(all.skip(0) =~= all);
        assert(views(out@) =~= Seq::<Text>::empty());
        lemma_after_empty(bound_values(all, label@));
    }
    while i < words.len()
        invariant
            i <= words@.len(),
            all == views(words@),
            after(views(out@), bound_values(all.skip(i as int), label@)) == bound_values(
                all,
                label@,
            ),
        decreases words@.len() - i,
    {
        assert(all.skip(i as int).drop_first() =~= all.skip(i + 1));
        assert(all.skip(i as int)[0] == words@[i as int]@);
        match <Real as Token>::from_token(words[i].as_str()) {
            Ok(v) => {
                proof {
                    lemma_after_push(views(out@), v@, bound_values(all.skip(i + 1), label@));
                    lemma_views_push(out@, v);
                }
                out.push(v);
                i += 1;
            },
            Err(e) => {
                return Err(
                    text5("Invalid ", label, " value '", words[i].as_str(), "': ").concat(
                        e.as_str(),
                    ),
                );
            },
        }
    }
    assert(all.skip(i as int) =~= Seq::<Text>::empty());
    assert(views(out@) + Seq::<Text>::empty() =~= views(out@));
    Ok(out)
}

/// The three numbers on a line of box bounds.
pub fn parse_bound_line(line: Option<String>, label: &str) -> (r: Result<Triple<Real>, String>)
    ensures
        result_view(r) == bound_line(crate::text::option_view(line), label@),
{
    let line = match line {
        Some(line) => line,
        None => {
            return Err(text2("Unexpected end of dump while reading ", label));
        },
    };
    let fields = words(line.as_str());
    match parse_bound_values(&fields, label) {
        Err(e) => Err(e),
        Ok(values) => {
            assert(views(values@).len() == values@.len());
            if values.len() != 3 {
                let count = decimal(values.len() as u64);
                Err(text3("Expected three values for ", label, ", found ").concat(count.as_str()))
            } else {
                Ok(Triple { x: values[0].clone(), y: values[1].clone(), z: values[2].clone() })
            }
        },
    }
}

/// The box that three lines of bounds describe: on each line the two ends along an axis, and a tilt.
pub open spec fn bounds_in(lines: Seq<Text>) -> Result<Bounds<Text>, Text> {
    match bound_line(line_at(lines, 0), "x bounds"@) {
        Err(e) => Err(e),
        Ok(x) => match bound_line(line_at(lines, 1), "y bounds"@) {
            Err(e) => Err(e),
            Ok(y) => match bound_line(line_at(lines, 2), "z bounds"@) {
                Err(e) => Err(e),
                Ok(z) => Ok(
                    Bounds {
                        xlo_bound: x.x,
                        xhi_bound: x.y,
                        xy: x.z,
                        ylo_bound: y.x,
                        yhi_bound: y.y,
                        xz: y.z,
                        zlo_bound: z.x,
                        zhi_bound: z.y,
                        yz: z.z,
                    },
                ),
            },
        },
    }
}

/// How many lines are read for the bounds of a box: up to the first that is refused.
pub open spec fn bounds_taken(lines: Seq<Text>) -> int {
    if bound_line(line_at(lines, 0), "x bounds"@) is Err {
        1
    } else if bound_line(line_at(lines, 1), "y bounds"@) is Err {
        2
    } else {
        3
    }
}

/// The box that the next three lines describe.
pub fn parse_bounds(lines: &mut Lines) -> (r: Result<BoxBounds, String>)
    ensures
        result_view(r) == bounds_in(old(lines)@),
        final(lines)@ == dropped(old(lines)@, bounds_taken(old(lines)@)),
{
    proof {
        lemma_dropped(lines@, 1);
        lemma_dropped(lines@, 2);
    }
    let x = match parse_bound_line(lines.next(), "x bounds") {
        Ok(x) => x,
        Err(e) => {
            return Err(e);
        },
    };
    let y = match parse_bound_line(lines.next(), "y bounds") {
        Ok(y) => y,
        Err(e) => {
            return Err(e);
        },
    };
    let z = match parse_bound_line(lines.next(), "z bounds") {
        Ok(z) => z,
        Err(e) => {
            return Err(e);
        },
    };
    Ok(
        Bounds {
            xlo_bound: x.x,
            xhi_bound: x.y,
            xy: x.z,
            ylo_bound: y.x,
            yhi_bound: y.y,
            xz: y.z,
            zlo_bound: z.x,
            zhi_bound: z.y,
            yz: z.z,
        },
    )
}

/// Which columns of an atom table hold what.
#[derive(Clone, Copy, PartialEq, Eq, Structural, Debug)]
pub struct Columns {
    /// The column of the number.
    pub id: usize,
    /// The column of the type.
    pub atom_type: usize,
    /// What the coordinates are measured by.
    pub coordinates: Coordinates,
    /// The column of the first coordinate.
    pub x: usize,
    /// The column of the second coordinate.
    pub y: usize,
    /// The column of the third coordinate.
    pub z: usize,
}

/// The columns that an atom table needs. Scaled coordinates are taken before cartesian ones.
pub open spec fn table_columns(names: Seq<Text>) -> Result<Columns, Text> {
    match (column_in(names, "id"@), column_in(names, "type"@)) {
        (Err(e), _) => Err(e),
        (_, Err(e)) => Err(e),
        (Ok(id), Ok(atom_type)) => match (
            column_in(names, "xs"@),
            column_in(names, "ys"@),
            column_in(names, "zs"@),
            column_in(names, "x"@),
            column_in(names, "y"@),
            column_in(names, "z"@),
        ) {
            (Ok(x), Ok(y), Ok(z), _, _, _) => Ok(
                Columns { id, atom_type, coordinates: Coordinates::Scaled, x, y, z },
            ),
            (_, _, _, Ok(x), Ok(y), Ok(z)) => Ok(
                Columns { id, atom_type, coordinates: Coordinates::Cartesian, x, y, z },
            ),
            _ => Err("LAMMPS dump atom table must contain either xs/ys/zs or x/y/z columns"@),
        },
    }
}

/// The columns that an atom table needs.
fn find_columns(names: &Vec<String>) -> (r: Result<Columns, String>)
    ensures
        match r {
            Ok(columns) => table_columns(views(names@)) == Ok::<Columns, Text>(columns),
            Err(e) => table_columns(views(names@)) == Err::<Columns, Text>(e@),
        },
{
    let id = match column_index(names, "id") {
        Ok(id) => id,
        Err(e) => {
            return Err(e);
        },
    };
    let atom_type = match column_index(names, "type") {
        Ok(atom_type) => atom_type,
        Err(e) => {
            return Err(e);
        },
    };
    let scaled = (column_index(names, "xs"), column_index(names, "ys"), column_index(names, "zs"));
    let cartesian = (column_index(names, "x"), column_index(names, "y"), column_index(names, "z"));
    if let (Ok(x), Ok(y), Ok(z)) = scaled {
        return Ok(Columns { id, atom_type, coordinates: Coordinates::Scaled, x, y, z });
    }
    if let (Ok(x), Ok(y), Ok(z)) = cartesian {
        return Ok(Columns { id, atom_type, coordinates: Coordinates::Cartesian, x, y, z });
    }
    Err("LAMMPS dump atom table must contain either xs/ys/zs or x/y/z columns".to_owned())
}

/// The coordinates in three fields.
pub open spec fn position_in(fields: Seq<Text>, columns: Columns) -> Result<Triple<Text>, Text> {
    let scaled = columns.coordinates == Coordinates::Scaled;
    match field_in::<Real>(
        fields,
        columns.x as int,
        if scaled {
            "xs"@
        } else {
            "x"@
        },
    ) {
        Err(e) => Err(e),
        Ok(x) => match field_in::<Real>(
            fields,
            columns.y as int,
            if scaled {
                "ys"@
            } else {
                "y"@
            },
        ) {
            Err(e) => Err(e),
            Ok(y) => match field_in::<Real>(
                fields,
                columns.z as int,
                if scaled {
                    "zs"@
                } else {
                    "z"@
                },
            ) {
                Err(e) => Err(e),
                Ok(z) => Ok(Triple { x, y, z }),
            },
        },
    }
}

/// The atom in a row of an atom table.
pub open spec fn atom_in(line: Text, columns: Columns) -> Result<Atom<Text>, Text> {
    let fields = words_of(line);
    match field_in::<usize>(fields, columns.id as int, "atom id"@) {
        Err(e) => Err(e),
        Ok(id) => match field_in::<usize>(fields, columns.atom_type as int, "atom type"@) {
            Err(e) => Err(e),
            Ok(atom_type) => match position_in(fields, columns) {
                Err(e) => Err(e),
                Ok(position) => Ok(Atom { id, atom_type, position }),
            },
        },
    }
}

/// The atom in a row of an atom table.
fn parse_atom(line: &str, columns: Columns) -> (r: Result<DumpAtom, String>)
    ensures
        result_view(r) == atom_in(line@, columns),
{
    let fields = words(line);
    let id = match parse_field::<usize>(&fields, columns.id, "atom id") {
        Ok(id) => id,
        Err(e) => {
            return Err(e);
        },
    };
    let atom_type = match parse_field::<usize>(&fields, columns.atom_type, "atom type") {
        Ok(atom_type) => atom_type,
        Err(e) => {
            return Err(e);
        },
    };
    let scaled = columns.coordinates == Coordinates::Scaled;
    let (x_label, y_label, z_label) = if scaled {
        ("xs", "ys", "zs")
    } else {
        ("x", "y", "z")
    };
    let x = match parse_field::<Real>(&fields, columns.x, x_label) {
        Ok(x) => x,
        Err(e) => {
            return Err(e);
        },
    };
    let y = match parse_field::<Real>(&fields, columns.y, y_label) {
        Ok(y) => y,
        Err(e) => {
            return Err(e);
        },
    };
    let z = match parse_field::<Real>(&fields, columns.z, z_label) {
        Ok(z) => z,
        Err(e) => {
            return Err(e);
        },
    };
    Ok(Atom { id, atom_type, position: Triple { x, y, z } })
}

/// The atoms in the first `count` rows of an atom table.
pub open spec fn atoms_in(lines: Seq<Text>, columns: Columns, count: nat) -> Result<
    Seq<Atom<Text>>,
    Text,
>
    decreases count,
{
    if count == 0 {
        Ok(Seq::empty())
    } else if lines.len() == 0 {
        Err("Unexpected end of dump inside atom table"@)
    } else {
        match atom_in(lines[0], columns) {
            Err(e) => Err(e),
            Ok(atom) => after(
                seq![atom],
                atoms_in(lines.drop_first(), columns, (count - 1) as nat),
            ),
        }
    }
}

/// How many rows are read of an atom table: up to the first that is refused.
pub open spec fn atoms_taken(lines: Seq<Text>, columns: Columns, count: nat) -> nat
    decreases count,
{
    if count == 0 || lines.len() == 0 {
        0
    } else if atom_in(lines[0], columns) is Err {
        1
    } else {
        1 + atoms_taken(lines.drop_first(), columns, (count - 1) as nat)
    }
}

/// All rows are read of an atom table of which none is refused.
proof fn lemma_atoms_taken(lines: Seq<Text>, columns: Columns, count: nat)
    requires
        atoms_in(lines, columns, count) is Ok,
    ensures
        atoms_taken(lines, columns, count) == count,
    decreases count,
{
    if count > 0 {
        lemma_atoms_taken(lines.drop_first(), columns, (count - 1) as nat);
    }
}

/// The value of a result that holds a list of atoms.
pub open spec fn atoms_view(r: Result<Vec<DumpAtom>, String>) -> Result<Seq<Atom<Text>>, Text> {
    match r {
        Ok(atoms) => Ok(views(atoms@)),
        Err(e) => Err(e@),
    }
}

/// The atoms in the next `count` rows of an atom table.
fn parse_atoms(lines: &mut Lines, columns: Columns, count: usize) -> (r: Result<
    Vec<DumpAtom>,
    String,
>)
    ensures
        atoms_view(r) == atoms_in(old(lines)@, columns, count as nat),
        final(lines)@ == dropped(
            old(lines)@,
            atoms_taken(old(lines)@, columns, count as nat) as int,
        ),
{
    let ghost all = lines@;
    let mut out: Vec<DumpAtom> = Vec::new();
    let mut done: usize = 0;
    proof {
        assert(dropped(all, 0) =~= all);
        assert(views(out@) =~= Seq::<Atom<Text>>::empty());
        lemma_after_empty(atoms_in(all, columns, count as nat));
    }
    while done < count
        invariant
            all == old(lines)@,
            done <= count,
            done <= all.len(),
            lines@ == dropped(all, done as int),
            after(views(out@), atoms_in(lines@, columns, (count - done) as nat)) == atoms_in(
                all,
                columns,
                count as nat,
            ),
            atoms_taken(all, columns, count as nat) == done + atoms_taken(
                lines@,
                columns,
                (count - done) as nat,
            ),
        decreases count - done,
    {
        let ghost rest = lines@;
        proof {
            lemma_dropped(all, done as int);
        }
        let line = match lines.next() {
            Some(line) => line,
            None => {
                return Err("Unexpected end of dump inside atom table".to_owned());
            },
        };
        assert(rest.drop_first() =~= lines@);
        match parse_atom(line.as_str(), columns) {
            Ok(atom) => {
                proof {
                    lemma_after_push(
                        views(out@),
                        atom@,
                        atoms_in(lines@, columns, (count - done - 1) as nat),
                    );
                    lemma_views_push(out@, atom);
                }
                out.push(atom);
                done += 1;
            },
            Err(e) => {
                return Err(e);
            },
        }
    }
    assert(views(out@) + Seq::<Atom<Text>>::empty() =~= views(out@));
    Ok(out)
}

/// The numbers of atoms.
pub open spec fn ids_of(atoms: Seq<Atom<Text>>) -> Seq<int> {
    atoms.map_values(|a: Atom<Text>| a.id as int)
}

/// The atoms by rising number, those of one number in the order in which they stand.
pub open spec fn by_id(atoms: Seq<Atom<Text>>) -> Seq<Atom<Text>> {
    stable_order(ids_of(atoms)).map_values(|p: int| atoms[p])
}

/// The atoms by rising number.
fn sort_by_id(atoms: &Vec<DumpAtom>) -> (r: Vec<DumpAtom>)
    ensures
        views(r@) == by_id(views(atoms@)),
{
    let ghost all = views(atoms@);
    let mut keys: Vec<u64> = Vec::new();
    let mut i: usize = 0;
    while i < atoms.len()
        invariant
            i <= atoms@.len(),
            keys@.len() == i,
            forall|j: int| 0 <= j < i ==> #[trigger] keys@[j] == atoms@[j].id,
        decreases atoms@.len() - i,
    {
        keys.push(atoms[i].id as u64);
        i += 1;
    }
    let order = sorted_positions(&keys);
    assert(as_ints(keys@) =~= ids_of(all));
    let ghost sorted = by_id(all);
    let mut out: Vec<DumpAtom> = Vec::new();
    let mut j: usize = 0;
    while j < order.len()
        invariant
            j <= order@.len(),
            all == views(atoms@),
            sorted == by_id(all),
            positions(order@) == stable_order(ids_of(all)),
            forall|k: int| 0 <= k < order@.len() ==> 0 <= #[trigger] positions(order@)[k]
                < atoms@.len(),
            views(out@) == sorted.take(j as int),
        decreases order@.len() - j,
    {
        assert(positions(order@)[j as int] == order@[j as int]);
        let atom = atoms[order[j]].clone();
        proof {
            lemma_views_push(out@, atom);
            assert(sorted[j as int] == all[positions(order@)[j as int]]);
            assert(sorted.take(j + 1) =~= sorted.take(j as int).push(sorted[j as int]));
        }
        out.push(atom);
        j += 1;
    }
    assert(sorted.take(j as int) =~= sorted);
    out
}

/// What stands before the atom table of a frame.
pub ghost struct FrameHeader {
    /// The step.
    pub timestep: i64,
    /// How many atoms there are.
    pub atom_count: usize,
    /// The box.
    pub bounds: Bounds<Text>,
    /// The columns of the table.
    pub columns: Columns,
}

/// What stands in the eight lines before the atom table of a frame, from its step on.
pub open spec fn header_in(lines: Seq<Text>) -> Result<FrameHeader, Text> {
    match line_value::<i64>(line_at(lines, 0), "timestep"@) {
        Err(e) => Err(e),
        Ok(timestep) => match item_line(line_at(lines, 1), "ITEM: NUMBER OF ATOMS"@) {
            Err(e) => Err(e),
            Ok(_) => match line_value::<usize>(line_at(lines, 2), "atom count"@) {
                Err(e) => Err(e),
                Ok(atom_count) => match line_at(lines, 3) {
                    None => Err("Unexpected end of dump before box bounds"@),
                    Some(line) => if !"ITEM: BOX BOUNDS"@.is_prefix_of(line) {
                        Err("Expected BOX BOUNDS, found: "@ + line)
                    } else {
                        table_in(lines, timestep, atom_count)
                    },
                },
            },
        },
    }
}

/// The box of a frame and the columns of its atom table, with what was read before them.
pub open spec fn table_in(lines: Seq<Text>, timestep: i64, atom_count: usize) -> Result<
    FrameHeader,
    Text,
> {
    match bounds_in(dropped(lines, 4)) {
        Err(e) => Err(e),
        Ok(bounds) => match line_at(lines, 7) {
            None => Err("Unexpected end of dump before atom table"@),
            Some(line) => if !"ITEM: ATOMS"@.is_prefix_of(line) {
                Err("Expected ATOMS table, found: "@ + line)
            } else {
                match table_columns(dropped(words_of(line), 2)) {
                    Err(e) => Err(e),
                    Ok(columns) => Ok(FrameHeader { timestep, atom_count, bounds, columns }),
                }
            },
        },
    }
}

/// The frame of which the step stands in the first of the lines.
pub open spec fn frame_in(lines: Seq<Text>) -> Result<FrameModel, Text> {
    match header_in(lines) {
        Err(e) => Err(e),
        Ok(header) => match atoms_in(dropped(lines, 8), header.columns, header.atom_count as nat) {
            Err(e) => Err(e),
            Ok(atoms) => Ok(
                FrameModel {
                    timestep: header.timestep,
                    bounds: header.bounds,
                    coordinates: header.columns.coordinates,
                    atoms: by_id(atoms),
                },
            ),
        },
    }
}

/// How many lines are read for the box of a frame and the title of its atom table, and before them:
/// up to the first that is refused.
pub open spec fn table_taken(lines: Seq<Text>) -> int {
    if bounds_in(dropped(lines, 4)) is Err {
        4 + bounds_taken(dropped(lines, 4))
    } else {
        8
    }
}

/// How many lines are read before the atom table of a frame: up to the first that is refused.
pub open spec fn header_taken(lines: Seq<Text>) -> int {
    if line_value::<i64>(line_at(lines, 0), "timestep"@) is Err {
        1
    } else if item_line(line_at(lines, 1), "ITEM: NUMBER OF ATOMS"@) is Err {
        2
    } else if line_value::<usize>(line_at(lines, 2), "atom count"@) is Err {
        3
    } else {
        match line_at(lines, 3) {
            Some(line) if "ITEM: BOX BOUNDS"@.is_prefix_of(line) => table_taken(lines),
            _ => 4,
        }
    }
}

/// How many lines are read for a frame: up to the first that is refused.
pub open spec fn frame_taken(lines: Seq<Text>) -> int {
    match header_in(lines) {
        Err(_) => header_taken(lines),
        Ok(header) => 8 + atoms_taken(
            dropped(lines, 8),
            header.columns,
            header.atom_count as nat,
        ) as int,
    }
}

/// How many lines the frame takes that starts with its step.
pub open spec fn frame_length(lines: Seq<Text>) -> nat {
    match header_in(lines) {
        Ok(header) => 8 + header.atom_count as nat,
        Err(_) => 0,
    }
}

/// The frames in the lines of a dump. What stands between frames is passed over.
pub open spec fn frames_in(lines: Seq<Text>) -> Result<Seq<FrameModel>, Text>
    decreases lines.len(),
{
    if lines.len() == 0 {
        Ok(Seq::empty())
    } else if trimmed(lines[0]) != "ITEM: TIMESTEP"@ {
        frames_in(lines.drop_first())
    } else {
        match frame_in(lines.drop_first()) {
            Err(e) => Err(e),
            Ok(frame) => after(
                seq![frame],
                frames_in(dropped(lines.drop_first(), frame_length(lines.drop_first()) as int)),
            ),
        }
    }
}

/// The value of a result that holds a list of frames.
pub open spec fn frames_view(r: Result<Vec<DumpFrame>, String>) -> Result<Seq<FrameModel>, Text> {
    match r {
        Ok(frames) => Ok(views(frames@)),
        Err(e) => Err(e@),
    }
}

/// What was read before the atom table of a frame.
struct Header {
    timestep: i64,
    atom_count: usize,
    bounds: BoxBounds,
    columns: Columns,
}

/// The box of a frame and the columns of its atom table.
fn parse_table(lines: &mut Lines, timestep: i64, atom_count: usize, Ghost(all): Ghost<Seq<Text>>)
    -> (r: Result<Header, String>)
    requires
        old(lines)@ == dropped(all, 4),
    ensures
        match r {
            Ok(header) => {
                &&& table_in(all, timestep, atom_count) == Ok::<FrameHeader, Text>(
                    FrameHeader {
                        timestep: header.timestep,
                        atom_count: header.atom_count,
                        bounds: header.bounds@,
                        columns: header.columns,
                    },
                )
            },
            Err(e) => table_in(all, timestep, atom_count) == Err::<FrameHeader, Text>(e@),
        },
        final(lines)@ == dropped(all, table_taken(all)),
{
    proof {
        assert(dropped(dropped(all, 4), 1) =~= dropped(all, 5));
        assert(dropped(dropped(all, 4), 2) =~= dropped(all, 6));
        assert(dropped(dropped(all, 4), 3) =~= dropped(all, 7));
    }
    let bounds = match parse_bounds(lines) {
        Ok(bounds) => bounds,
        Err(e) => {
            return Err(e);
        },
    };
    proof {
        lemma_dropped(all, 7);
    }
    let atoms_header = match lines.next() {
        Some(line) => line,
        None => {
            return Err("Unexpected end of dump before atom table".to_owned());
        },
    };
    if !starts_with(atoms_header.as_str(), "ITEM: ATOMS") {
        return Err(text2("Expected ATOMS table, found: ", atoms_header.as_str()));
    }
    let fields = words(atoms_header.as_str());
    let mut names: Vec<String> = Vec::new();
    let mut i: usize = 2;
    assert(views(fields@).len() == fields@.len());
    assert(views(names@) =~= Seq::<Text>::empty());
    if fields.len() >= 2 {
        assert(views(fields@).subrange(2, 2) =~= Seq::<Text>::empty());
    }
    while i < fields.len()
        invariant
            2 <= i,
            i <= fields@.len() || (i == 2 && names@.len() == 0),
            i <= fields@.len() ==> views(names@) == views(fields@).subrange(2, i as int),
        decreases fields@.len() - i,
    {
        let name = fields[i].clone();
        proof {
            lemma_views_push(names@, name);
            assert(views(fields@).subrange(2, i + 1) =~= views(fields@).subrange(2, i as int).push(
                views(fields@)[i as int],
            ));
        }
        names.push(name);
        i += 1;
    }
    assert(views(names@) =~= dropped(words_of(atoms_header@), 2));
    match find_columns(&names) {
        Ok(columns) => Ok(Header { timestep, atom_count, bounds, columns }),
        Err(e) => Err(e),
    }
}

/// What stands before the atom table of a frame, from its step on.
fn parse_header(lines: &mut Lines) -> (r: Result<Header, String>)
    ensures
        match r {
            Ok(header) => {
                &&& header_in(old(lines)@) == Ok::<FrameHeader, Text>(
                    FrameHeader {
                        timestep: header.timestep,
                        atom_count: header.atom_count,
                        bounds: header.bounds@,
                        columns: header.columns,
                    },
                )
            },
            Err(e) => header_in(old(lines)@) == Err::<FrameHeader, Text>(e@),
        },
        final(lines)@ == dropped(old(lines)@, header_taken(old(lines)@)),
{
    let ghost all = lines@;
    proof {
        lemma_dropped(all, 1);
        lemma_dropped(all, 2);
        lemma_dropped(all, 3);
    }
    let timestep: i64 = match parse_next::<i64>(lines, "timestep") {
        Ok(timestep) => timestep,
        Err(e) => {
            return Err(e);
        },
    };
    match expect_item(lines, "ITEM: NUMBER OF ATOMS") {
        Ok(_) => {},
        Err(e) => {
            return Err(e);
        },
    }
    let atom_count: usize = match parse_next::<usize>(lines, "atom count") {
        Ok(atom_count) => atom_count,
        Err(e) => {
            return Err(e);
        },
    };
    let bounds_header = match lines.next() {
        Some(line) => line,
        None => {
            return Err("Unexpected end of dump before box bounds".to_owned());
        },
    };
    if !starts_with(bounds_header.as_str(), "ITEM: BOX BOUNDS") {
        return Err(text2("Expected BOX BOUNDS, found: ", bounds_header.as_str()));
    }
    parse_table(lines, timestep, atom_count, Ghost(all))
}

/// The frame that starts with the next line.
fn parse_frame(lines: &mut Lines) -> (r: Result<DumpFrame, String>)
    ensures
        result_view(r) == frame_in(old(lines)@),
        final(lines)@ == dropped(old(lines)@, frame_taken(old(lines)@)),
{
    let ghost all = lines@;
    let header = match parse_header(lines) {
        Ok(header) => header,
        Err(e) => {
            return Err(e);
        },
    };
    let ghost taken = atoms_taken(dropped(all, 8), header.columns, header.atom_count as nat);
    assert(dropped(dropped(all, 8), taken as int) =~= dropped(all, 8 + taken as int));
    let atoms = match parse_atoms(lines, header.columns, header.atom_count) {
        Ok(atoms) => atoms,
        Err(e) => {
            return Err(e);
        },
    };
    Ok(
        DumpFrame {
            timestep: header.timestep,
            bounds: header.bounds,
            coordinates: header.columns.coordinates,
            atoms: sort_by_id(&atoms),
        },
    )
}

/// The frames in the text of a dump.
pub fn read_lammps_dump(text: &str) -> (r: Result<Vec<DumpFrame>, String>)
    ensures
        frames_view(r) == frames_in(lines_of(text@)),
{
    let mut lines = Lines::new(text);
    let mut frames: Vec<DumpFrame> = Vec::new();
    let ghost all = lines@;
    proof {
        assert(views(frames@) =~= Seq::<FrameModel>::empty());
        lemma_after_empty(frames_in(all));
    }
    while lines.len() > 0
        invariant
            all == lines_of(text@),
            after(views(frames@), frames_in(lines@)) == frames_in(all),
        decreases lines@.len(),
    {
        let ghost rest = lines@;
        let line = match lines.next() {
            Some(line) => line,
            None => {
                return Ok(frames);
            },
        };
        assert(rest.drop_first() =~= lines@);
        let item = trim(line.as_str());
        if same(item.as_str(), "ITEM: TIMESTEP") {
            let ghost tail = lines@;
            match parse_frame(&mut lines) {
                Ok(frame) => {
                    proof {
                        let header = header_in(tail)->Ok_0;
                        lemma_atoms_taken(
                            dropped(tail, 8),
                            header.columns,
                            header.atom_count as nat,
                        );
                        lemma_after_push(views(frames@), frame@, frames_in(lines@));
                        lemma_views_push(frames@, frame);
                    }
                    frames.push(frame);
                },
                Err(e) => {
                    return Err(e);
                },
            }
        }
    }
    assert(views(frames@) + Seq::<FrameModel>::empty() =~= views(frames@));
    Ok(frames)
}

} // verus!
