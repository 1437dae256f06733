use alchemist::data::{fallback_lammps_data, mock_source, read_lammps_data};
use alchemist::dump::{parse_bound_line, parse_bounds, read_lammps_dump};
use alchemist::fields::{column_index, expect_item, parse_field, parse_next, parse_number, Lines};
use alchemist::number::Real;
use alchemist::species::{
    atomic_symbol, fallback_species, read_lammps_species, species_for_type, symbol_from_token,
};
use alchemist::structure::{Bounds, Coordinates, DumpAtom, DumpFrame, Triple};
use alchemist::trajectory::create_mock_trajectory;

fn text(s: &str) -> String {
    s.to_string()
}

fn dump(atom_header: &str, rows: &str, count: usize) -> String {
    format!(
        "ITEM: TIMESTEP\n250\nITEM: NUMBER OF ATOMS\n{}\nITEM: BOX BOUNDS xy xz yz pp pp pp\n\
         0.0 10.0 1.0\n0.0 9.0 0.5\n0.0 8.0 0.25\n{}\n{}",
        count, atom_header, rows
    )
}

fn only_frame(text: &str) -> DumpFrame {
    let mut frames = read_lammps_dump(text).unwrap();
    assert_eq!(frames.len(), 1);
    frames.pop().unwrap()
}

fn dump_error(text: &str) -> String {
    match read_lammps_dump(text) {
        Ok(_) => panic!("a dump was read: {}", text),
        Err(e) => e,
    }
}

#[test]
fn a_dump_is_read_with_its_atoms_by_number() {
    let frame = only_frame(&dump("ITEM: ATOMS id type x y z", "2 1 1.0 2.0 3.0\n1 2 4 5 6\n", 2));
    assert_eq!(frame.timestep, 250);
    assert_eq!(frame.coordinates, Coordinates::Cartesian);
    assert_eq!(frame.bounds.xhi_bound.literal, "10.0");
    assert_eq!(frame.bounds.xy.literal, "1.0");
    assert_eq!(frame.bounds.xz.literal, "0.5");
    assert_eq!(frame.bounds.yz.literal, "0.25");
    let ids: Vec<usize> = frame.atoms.iter().map(|a| a.id).collect();
    assert_eq!(ids, vec![1, 2]);
    assert_eq!(frame.atoms[0].atom_type, 2);
    assert_eq!(frame.atoms[0].position.x.literal, "4");
    assert_eq!(frame.atoms[1].position.z.literal, "3.0");
}

#[test]
fn scaled_coordinates_are_taken_before_cartesian_ones() {
    let frame = only_frame(&dump(
        "ITEM: ATOMS x y z xs ys zs type id",
        "1 2 3 0.1 0.2 0.3 7 9\n",
        1,
    ));
    assert_eq!(frame.coordinates, Coordinates::Scaled);
    assert_eq!(frame.atoms[0].position.x.literal, "0.1");
    assert_eq!(frame.atoms[0].id, 9);
    assert_eq!(frame.atoms[0].atom_type, 7);
}

#[test]
fn what_stands_between_frames_is_passed_over() {
    let one = dump("ITEM: ATOMS id type x y z", "1 1 0 0 0\n", 1);
    let all = format!("# header\n{}junk\n  ITEM: TIMESTEP  \n{}", one, &one[15..]);
    assert_eq!(read_lammps_dump(&all).unwrap().len(), 2);
    assert_eq!(read_lammps_dump("").unwrap().len(), 0);
    assert_eq!(read_lammps_dump("nothing\nhere").unwrap().len(), 0);
}

#[test]
fn a_dump_that_is_broken_is_refused() {
    assert_eq!(dump_error("ITEM: TIMESTEP"), "Expected timestep, found end of dump");
    assert_eq!(
        dump_error("ITEM: TIMESTEP\nten"),
        "Invalid timestep 'ten': invalid digit found in string"
    );
    assert_eq!(
        dump_error("ITEM: TIMESTEP\n1\nITEM: ATOMS"),
        "Expected ITEM: NUMBER OF ATOMS, found: ITEM: ATOMS"
    );
    assert_eq!(
        dump_error("ITEM: TIMESTEP\n1"),
        "Expected ITEM: NUMBER OF ATOMS, found end of dump"
    );
    let counted = "ITEM: TIMESTEP\n1\nITEM: NUMBER OF ATOMS\n1";
    assert_eq!(dump_error(counted), "Unexpected end of dump before box bounds");
    assert_eq!(
        dump_error(&format!("{}\nITEM: BOX\n", counted)),
        "Expected BOX BOUNDS, found: ITEM: BOX"
    );
    let boxed = format!("{}\nITEM: BOX BOUNDS pp pp pp\n", counted);
    assert_eq!(dump_error(&boxed), "Unexpected end of dump while reading x bounds");
    assert_eq!(
        dump_error(&format!("{}0 1\n", boxed)),
        "Expected three values for x bounds, found 2"
    );
    assert_eq!(
        dump_error(&format!("{}0 1 0\n0 one 0\n", boxed)),
        "Invalid y bounds value 'one': invalid float literal"
    );
    let bounded = format!("{}0 1 0\n0 1 0\n0 1 0\n", boxed);
    assert_eq!(dump_error(&bounded), "Unexpected end of dump before atom table");
    assert_eq!(
        dump_error(&format!("{}ITEM: BONDS\n", bounded)),
        "Expected ATOMS table, found: ITEM: BONDS"
    );
    assert_eq!(
        dump_error(&format!("{}ITEM: ATOMS type x y z\n", bounded)),
        "LAMMPS dump atom table is missing 'id' column"
    );
    assert_eq!(
        dump_error(&format!("{}ITEM: ATOMS id type x y\n", bounded)),
        "LAMMPS dump atom table must contain either xs/ys/zs or x/y/z columns"
    );
    let table = format!("{}ITEM: ATOMS id type x y z\n", bounded);
    assert_eq!(dump_error(&table), "Unexpected end of dump inside atom table");
    assert_eq!(
        dump_error(&format!("{}1 2 3 4\n", table)),
        "Missing z field at column 4"
    );
    assert_eq!(
        dump_error(&format!("{}-1 2 3 4 5\n", table)),
        "Invalid atom id '-1': invalid digit found in string"
    );
}

#[test]
fn fields_are_read_one_by_one() {
    let mut lines = Lines::new("ITEM: X\n 42 \nx");
    assert_eq!(lines.len(), 3);
    assert_eq!(expect_item(&mut lines, "ITEM: X"), Ok(()));
    assert_eq!(parse_next::<usize>(&mut lines, "count"), Ok(42));
    assert_eq!(
        parse_next::<usize>(&mut lines, "count"),
        Err(text("Invalid count 'x': invalid digit found in string"))
    );
    assert_eq!(lines.next(), None);
    let fields = vec![text("5"), text("six")];
    assert_eq!(parse_field::<usize>(&fields, 0, "first"), Ok(5));
    assert_eq!(
        parse_field::<usize>(&fields, 1, "second"),
        Err(text("Invalid second 'six': invalid digit found in string"))
    );
    assert_eq!(
        parse_field::<usize>(&fields, 2, "third"),
        Err(text("Missing third field at column 2"))
    );
    assert_eq!(parse_number::<i64>("-3", "n"), Ok(-3));
    assert_eq!(column_index(&fields, "six"), Ok(1));
    assert_eq!(
        column_index(&fields, "id"),
        Err(text("LAMMPS dump atom table is missing 'id' column"))
    );
    let bound = parse_bound_line(Some(text("1 2 3")), "x bounds").unwrap();
    assert_eq!(bound.z.literal, "3");
    let mut rows = Lines::new("0 1 2\n3 4 5\n6 7 8\nrest");
    let bounds = parse_bounds(&mut rows).unwrap();
    assert_eq!(bounds.zhi_bound.literal, "7");
    assert_eq!(bounds.yz.literal, "8");
    assert_eq!(rows.next().as_deref(), Some("rest"));
    for (dump, left) in [
        ("0 1\n3 4 5\n6 7 8\nrest", Some("3 4 5")),
        ("0 1 2\n3 x 5\n6 7 8\nrest", Some("6 7 8")),
        ("0 1 2\n3 4 5\n6\nrest", Some("rest")),
        ("0 1 2\n3 4 5\n", None),
        ("", None),
    ] {
        let mut rows = Lines::new(dump);
        assert!(parse_bounds(&mut rows).is_err());
        assert_eq!(rows.next().as_deref(), left);
    }
}

const DATA: &str = "LAMMPS data\n\n2 atoms\n\n0.0 10.5 xlo xhi\n-1 9 ylo yhi\n0 8 zlo zhi\n\
                    0.1 0.2 0.3 xy xz yz\n\nAtoms # atomic\n\n1 1 0.5 0.5 0.5\n2 2 1.5 1.5 1.5\n";

#[test]
fn a_data_file_is_read() {
    let structure = read_lammps_data(DATA, "lmp.data").unwrap();
    assert_eq!(structure.bounds.xhi_bound.literal, "10.5");
    assert_eq!(structure.bounds.ylo_bound.literal, "-1");
    assert_eq!(structure.bounds.yz.literal, "0.3");
    assert_eq!(structure.atoms.len(), 2);
    assert_eq!(structure.atoms[1].atom_type, 2);
    assert_eq!(structure.atoms[1].position.x.literal, "1.5");
}

#[test]
fn a_data_file_that_is_incomplete_is_refused() {
    let error = |text: &str| match read_lammps_data(text, "lmp.data") {
        Ok(_) => panic!("a structure was read"),
        Err(e) => e,
    };
    assert_eq!(error(""), "No atoms found in LAMMPS data file lmp.data");
    assert_eq!(error("Atoms\n\n1 1 0 0 0\n"), "Missing xlo/xhi bounds");
    assert_eq!(error("0 1 xlo xhi\nAtoms\n\n1 1 0 0 0\n"), "Missing ylo/yhi bounds");
    assert_eq!(
        error("0 1 xlo xhi\n0 1 ylo yhi\nAtoms\n\n1 1 0 0 0\n"),
        "Missing zlo/zhi bounds"
    );
    assert_eq!(
        error("zero 1 xlo xhi\n"),
        "Invalid xlo 'zero': invalid float literal"
    );
    assert_eq!(
        error("Atoms\n\na 1 0 0 0\n"),
        "Invalid atom id 'a': invalid digit found in string"
    );
}

#[test]
fn a_structure_stands_in_for_one_that_cannot_be_read() {
    let fallback = fallback_lammps_data();
    assert_eq!(fallback.atoms.len(), 16);
    for (index, atom) in fallback.atoms.iter().enumerate() {
        assert_eq!(atom.id, index + 1);
        assert_eq!(atom.atom_type, if index % 2 == 0 { 1 } else { 2 });
        let x: f64 = atom.position.x.literal.parse().unwrap();
        let y: f64 = atom.position.y.literal.parse().unwrap();
        let z: f64 = atom.position.z.literal.parse().unwrap();
        assert_eq!(x, 1.0 + (index % 4) as f64 * 2.0);
        assert_eq!(y, 1.0 + ((index / 4) % 4) as f64 * 2.0);
        assert_eq!(z, 5.0);
    }
    let missing = mock_source(&Err(text("No such file")), "run/lmp.data");
    assert_eq!(
        missing.notice.as_deref(),
        Some(
            " ⚠️  Could not read LAMMPS data for mock trajectory (Failed to read run/lmp.data: \
             No such file); using fallback mock atoms."
        )
    );
    assert_eq!(missing.structure.atoms.len(), 16);
    let broken = mock_source(&Ok(text("Atoms")), "run/lmp.data");
    assert_eq!(
        broken.notice.as_deref(),
        Some(
            " ⚠️  Could not read LAMMPS data for mock trajectory (No atoms found in LAMMPS data \
             file run/lmp.data); using fallback mock atoms."
        )
    );
    let read = mock_source(&Ok(text(DATA)), "run/lmp.data");
    assert!(read.notice.is_none());
    assert_eq!(read.structure.atoms.len(), 2);
}

fn literal_bounds() -> Bounds<String> {
    Bounds {
        xlo_bound: text("0.0000000000000000e0"),
        xhi_bound: text("1.0500000000000000e1"),
        ylo_bound: text("-1.0000000000000000e0"),
        yhi_bound: text("9.0000000000000000e0"),
        zlo_bound: text("0.0000000000000000e0"),
        zhi_bound: text("8.0000000000000000e0"),
        xy: text("1.0e-1"),
        xz: text("0.2"),
        yz: text("NaN"),
    }
}

fn displaced(index: usize, atom: &DumpAtom) -> Triple<String> {
    let moved = |r: &Real, by: f64| {
        format!("{:.10}", r.literal.parse::<f64>().unwrap() + by * index as f64)
    };
    Triple {
        x: moved(&atom.position.x, 0.01),
        y: moved(&atom.position.y, -0.005),
        z: moved(&atom.position.z, 0.0025),
    }
}

#[test]
fn a_mock_trajectory_is_read_back_as_it_was_written() {
    let structure = read_lammps_data(DATA, "lmp.data").unwrap();
    let trajectory = create_mock_trajectory(&literal_bounds(), &structure.atoms, displaced);
    assert!(trajectory.starts_with(
        "ITEM: TIMESTEP\n0\nITEM: NUMBER OF ATOMS\n2\nITEM: BOX BOUNDS xy xz yz pp pp pp\n\
         0.0000000000000000e0 1.0500000000000000e1 1.0e-1\n\
         -1.0000000000000000e0 9.0000000000000000e0 0.2\n\
         0.0000000000000000e0 8.0000000000000000e0 NaN\n\
         ITEM: ATOMS id type x y z\n1 1 0.5000000000 0.5000000000 0.5000000000\n"
    ));
    let frames = read_lammps_dump(&trajectory).unwrap();
    assert_eq!(frames.len(), 11);
    for (i, frame) in frames.iter().enumerate() {
        assert_eq!(frame.timestep, 100 * i as i64);
        assert_eq!(frame.coordinates, Coordinates::Cartesian);
        assert_eq!(frame.bounds.xhi_bound.literal, "1.0500000000000000e1");
        assert_eq!(frame.bounds.yz.literal, "NaN");
        assert_eq!(frame.atoms.len(), 2);
        for (atom, source) in frame.atoms.iter().zip(&structure.atoms) {
            let expected = displaced(i, source);
            assert_eq!(atom.id, source.id);
            assert_eq!(atom.atom_type, source.atom_type);
            assert_eq!(atom.position.x.literal, expected.x);
            assert_eq!(atom.position.y.literal, expected.y);
            assert_eq!(atom.position.z.literal, expected.z);
        }
    }
}

#[test]
fn numbers_that_are_read_can_be_parsed() {
    let structure = read_lammps_data(DATA, "lmp.data").unwrap();
    let trajectory = create_mock_trajectory(&literal_bounds(), &structure.atoms, displaced);
    for frame in read_lammps_dump(&trajectory).unwrap() {
        assert!(frame.bounds.yz.literal.parse::<f64>().unwrap().is_nan());
        for atom in frame.atoms {
            assert!(atom.position.x.literal.parse::<f64>().is_ok());
        }
    }
}

#[test]
fn species_are_named_by_symbol_or_number() {
    assert_eq!(atomic_symbol(0), Some(""));
    assert_eq!(atomic_symbol(16), Some("S"));
    assert_eq!(atomic_symbol(30), Some("Zn"));
    assert_eq!(atomic_symbol(31), None);
    assert_eq!(symbol_from_token("29"), Ok(text("Cu")));
    assert_eq!(symbol_from_token("Cu"), Ok(text("Cu")));
    assert_eq!(symbol_from_token("-1"), Ok(text("-1")));
    assert_eq!(
        symbol_from_token("79"),
        Err(text("Unsupported atomic number in pair_coeff: 79"))
    );
    assert_eq!(fallback_species(), vec!["S", "Cu"]);
}

#[test]
fn species_are_found_in_simulation_input() {
    assert_eq!(
        read_lammps_species("units metal\n# alchemist_species 16 Cu\n", "in.lmp"),
        Ok(vec![text("S"), text("Cu")])
    );
    assert_eq!(
        read_lammps_species("pair_coeff * * 8 1 # oxygen\npair_coeff * * C\n", "in.lmp"),
        Ok(vec![text("O"), text("H")])
    );
    assert_eq!(
        read_lammps_species("# alchemist_species\n  pair_coeff  *  *  Fe\n", "in.lmp"),
        Ok(vec![text("Fe")])
    );
    assert_eq!(
        read_lammps_species("pair_coeff 1 * Fe\n# pair_coeff * * Fe\npair_coeff * *\n", "in.lmp"),
        Err(text(
            "Could not find a parseable '# alchemist_species ...' or 'pair_coeff * * ...' \
             element mapping in in.lmp"
        ))
    );
    assert_eq!(
        read_lammps_species("pair_coeff * * model.pt 92\n", "in.lmp"),
        Err(text("Unsupported atomic number in pair_coeff: 92"))
    );
}

#[test]
fn atom_types_count_from_one() {
    let species = fallback_species();
    assert_eq!(species_for_type(1, &species), Ok("S"));
    assert_eq!(species_for_type(2, &species), Ok("Cu"));
    assert_eq!(species_for_type(0, &species), Ok("S"));
    assert_eq!(
        species_for_type(3, &species),
        Err(text("LAMMPS atom type 3 has no pair_coeff mapping (S, Cu)"))
    );
}
