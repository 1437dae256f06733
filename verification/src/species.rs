//! The chemical species behind the atom types of a simulation.
use crate::number::{Token, decimal, decimal_of};
use crate::text::{
    Text, after, after_prefix, before_mark, join, joined, lemma_after_empty, lemma_after_push,
    lemma_views_push, lines, lines_of, result_view, same, strip_prefix, text2, text5, trim, trimmed,
    until_mark, views, words, words_of,
};
use vstd::prelude::*;

verus! {

/// The symbols of the elements, by atomic number, from the empty symbol of number zero to zinc.
pub open spec fn element_symbols() -> Seq<Text> {
    seq![
        ""@, "H"@, "He"@, "Li"@, "Be"@, "B"@, "C"@, "N"@, "O"@, "F"@, "Ne"@, "Na"@, "Mg"@, "Al"@,
        "Si"@, "P"@, "S"@, "Cl"@, "Ar"@, "K"@, "Ca"@, "Sc"@, "Ti"@, "V"@, "Cr"@, "Mn"@, "Fe"@,
        "Co"@, "Ni"@, "Cu"@, "Zn"@,
    ]
}

/// The symbol of the element with an atomic number.
pub open spec fn symbol_of(atomic_number: int) -> Option<Text> {
    if 0 <= atomic_number < element_symbols().len() {
        Some(element_symbols()[atomic_number])
    } else {
        None
    }
}

/// The symbol of the element with an atomic number, for the numbers up to that of zinc.
pub fn atomic_symbol(atomic_number: usize) -> (r: Option<&'static str>)
    ensures
        (match r {
            Some(symbol) => Some(symbol@),
            None => None,
        }) == symbol_of(atomic_number as int),
{
    let symbols: [&'static str; 31] = [
        "", "H", "He", "Li", "Be", "B", "C", "N", "O", "F", "Ne", "Na", "Mg", "Al", "Si", "P", "S",
        "Cl", "Ar", "K", "Ca", "Sc", "Ti", "V", "Cr", "Mn", "Fe", "Co", "Ni", "Cu", "Zn",
    ];
    if atomic_number < 31 {
        Some(symbols[atomic_number])
    } else {
        None
    }
}

/// The species that are taken where none can be read: sulfur and copper.
pub fn fallback_species() -> (r: Vec<String>)
    ensures
        views(r@) == seq!["S"@, "Cu"@],
{
    let mut r: Vec<String> = Vec::new();
    r.push("S".to_owned());
    r.push("Cu".to_owned());
    assert(views(r@) =~= seq!["S"@, "Cu"@]);
    r
}

/// The symbol that a word stands for: that of the element where the word is an atomic number, and
/// else the word itself.
pub open spec fn token_symbol(token: Text) -> Result<Text, Text> {
    match <usize as Token>::read(token) {
        Ok(number) => match symbol_of(number as int) {
            Some(symbol) => Ok(symbol),
            None => Err("Unsupported atomic number in pair_coeff: "@ + decimal_of(number as nat)),
        },
        Err(_) => Ok(token),
    }
}

/// The symbol that a word stands for.
pub fn symbol_from_token(token: &str) -> (r: Result<String, String>)
    ensures
        result_view(r) == token_symbol(token@),
{
    match <usize as Token>::from_token(token) {
        Ok(number) => match atomic_symbol(number) {
            Some(symbol) => Ok(symbol.to_owned()),
            None => {
                let digits = decimal(number as u64);
                Err(text2("Unsupported atomic number in pair_coeff: ", digits.as_str()))
            },
        },
        Err(_) => Ok(token.to_owned()),
    }
}

/// The symbols that words stand for; the first word that stands for none decides the error.
pub open spec fn token_symbols(tokens: Seq<Text>) -> Result<Seq<Text>, Text>
    decreases tokens.len(),
{
    if tokens.len() == 0 {
        Ok(Seq::empty())
    } else {
        match token_symbol(tokens[0]) {
            Ok(symbol) => after(seq![symbol], token_symbols(tokens.drop_first())),
            Err(e) => Err(e),
        }
    }
}

/// The value of a result that holds a list of strings.
pub open spec fn strings_view(r: Result<Vec<String>, String>) -> Result<Seq<Text>, Text> {
    match r {
        Ok(strings) => Ok(views(strings@)),
        Err(e) => Err(e@),
    }
}

/// The symbols that the words from `from` on stand for.
fn symbols_from(tokens: &Vec<String>, from: usize) -> (r: Result<Vec<String>, String>)
    requires
        from <= tokens@.len(),
    ensures
        strings_view(r) == token_symbols(views(tokens@).skip(from as int)),
{
    let mut out: Vec<String> = Vec::new();
    let mut i: usize = from;
    let ghost all = views(tokens@);
    proof {
        assert(views(out@) =~= Seq::<Text>::empty());
        lemma_after_empty(token_symbols(all.skip(from as int)));
    }
    while i < tokens.len()
        invariant
            from <= i <= tokens@.len(),
            all == views(tokens@),
            after(views(out@), token_symbols(all.skip(i as int))) == token_symbols(
                all.skip(from as int),
            ),
        decreases tokens@.len() - i,
    {
        assert(all.skip(i as int).drop_first() =~= all.skip(i + 1));
        assert(all.skip(i as int)[0] == tokens@[i as int]@);
        match symbol_from_token(tokens[i].as_str()) {
            Ok(symbol) => {
                proof {
                    lemma_after_push(views(out@), symbol@, token_symbols(all.skip(i + 1)));
                    lemma_views_push(out@, symbol);
                }
                out.push(symbol);
                i += 1;
            },
            Err(e) => {
                return Err(e);
            },
        }
    }
    assert(all.skip(i as int) =~= Seq::<Text>::empty());
    assert(views(out@) + Seq::<Text>::empty() =~= views(out@));
    Ok(out)
}

/// The words that name the species in a line of simulation input, where the line names them: those
/// after the mark of a species comment, or those after the two wild cards of a pair coefficient.
/// What follows a `#` counts only in the species comment.
pub open spec fn species_words(line: Text) -> Option<Seq<Text>> {
    let fields = words_of(trimmed(before_mark(line, '#')));
    match after_prefix(trimmed(line), "# alchemist_species"@) {
        Some(mapping) if words_of(mapping).len() > 0 => Some(words_of(mapping)),
        _ => if fields.len() >= 4 && fields[0] == "pair_coeff"@ && fields[1] == "*"@ && fields[2]
            == "*"@ {
            Some(fields.skip(3))
        } else {
            None
        },
    }
}

/// The species that the first line that names any names.
pub open spec fn first_species(lines: Seq<Text>, absent: Text) -> Result<Seq<Text>, Text>
    decreases lines.len(),
{
    if lines.len() == 0 {
        Err(absent)
    } else {
        match species_words(lines[0]) {
            Some(tokens) => token_symbols(tokens),
            None => first_species(lines.drop_first(), absent),
        }
    }
}

/// The error of simulation input that names no species.
pub open spec fn no_species(path: Text) -> Text {
    "Could not find a parseable '# alchemist_species ...' or 'pair_coeff * * ...' element mapping in "@
        + path
}

/// The species that simulation input names, read from the file at `path`.
pub open spec fn species_in(text: Text, path: Text) -> Result<Seq<Text>, Text> {
    first_species(lines_of(text), no_species(path))
}

/// The symbols that a line of simulation input names, where it names any.
fn species_in_line(line: &str) -> (r: Option<Result<Vec<String>, String>>)
    ensures
        match r {
            Some(symbols) => species_words(line@) is Some && strings_view(symbols)
                == token_symbols(species_words(line@)->0),
            None => species_words(line@) is None,
        },
{
    let raw_line = trim(line);
    if let Some(mapping) = strip_prefix(raw_line.as_str(), "# alchemist_species") {
        let fields = words(mapping.as_str());
        assert(views(fields@).len() == fields@.len());
        if fields.len() > 0 {
            assert(views(fields@).skip(0) =~= views(fields@));
            return Some(symbols_from(&fields, 0));
        }
    }
    let code = until_mark(line, '#');
    let code = trim(code.as_str());
    let fields = words(code.as_str());
    assert(views(fields@).len() == fields@.len());
    if fields.len() < 4 {
        return None;
    }
    assert(views(fields@)[0] == fields@[0]@);
    assert(views(fields@)[1] == fields@[1]@);
    assert(views(fields@)[2] == fields@[2]@);
    if !same(fields[0].as_str(), "pair_coeff") || !same(fields[1].as_str(), "*") || !same(
        fields[2].as_str(),
        "*",
    ) {
        return None;
    }
    Some(symbols_from(&fields, 3))
}

/// The species that the text of simulation input names; `path` says where the text comes from.
pub fn read_lammps_species(text: &str, path: &str) -> (r: Result<Vec<String>, String>)
    ensures
        strings_view(r) == species_in(text@, path@),
{
    let all = lines(text);
    let ghost rows = lines_of(text@);
    let mut i: usize = 0;
    assert(rows.skip(0) =~= rows);
    while i < all.len()
        invariant
            i <= all@.len(),
            views(all@) == rows,
            rows == lines_of(text@),
            first_species(rows.skip(i as int), no_species(path@)) == first_species(
                rows,
                no_species(path@),
            ),
        decreases all@.len() - i,
    {
        assert(rows.skip(i as int)[0] == all@[i as int]@);
        assert(rows.skip(i as int).drop_first() =~= rows.skip(i + 1));
        if let Some(symbols) = species_in_line(all[i].as_str()) {
            return symbols;
        }
        i += 1;
    }
    assert(rows.skip(i as int) =~= Seq::<Text>::empty());
    Err(
        text2(
            "Could not find a parseable '# alchemist_species ...' or 'pair_coeff * * ...' element mapping in ",
            path,
        ),
    )
}

/// The species of an atom type. Types count from one, and type zero counts as type one.
pub open spec fn type_species(atom_type: nat, species: Seq<Text>) -> Result<Text, Text> {
    let at = if atom_type == 0 {
        0
    } else {
        atom_type - 1
    };
    if at < species.len() {
        Ok(species[at])
    } else {
        Err(
            "LAMMPS atom type "@ + decimal_of(atom_type) + " has no pair_coeff mapping ("@ + joined(
                species,
                ", "@,
            ) + ")"@,
        )
    }
}

/// The species of an atom type.
pub fn species_for_type<'a>(atom_type: usize, species: &'a Vec<String>) -> (r: Result<
    &'a str,
    String,
>)
    ensures
        (match r {
            Ok(symbol) => Ok(symbol@),
            Err(e) => Err(e@),
        }) == type_species(atom_type as nat, views(species@)),
{
    let at: usize = if atom_type == 0 {
        0
    } else {
        atom_type - 1
    };
    if at < species.len() {
        Ok(species[at].as_str())
    } else {
        let number = decimal(atom_type as u64);
        let known = join(species, ", ");
        Err(
            text5(
                "LAMMPS atom type ",
                number.as_str(),
                " has no pair_coeff mapping (",
                known.as_str(),
                ")",
            ),
        )
    }
}

} // verus!
