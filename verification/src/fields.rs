//! Reading tables of numbers line by line and word by word.
use crate::number::{Token, decimal, decimal_of};
use crate::text::{
    Text, lines, lines_of, option_view, result_view, same, text3, text5, trim, trimmed, views,
};
use vstd::prelude::*;

verus! {

/// The first `n` lines left out.
pub open spec fn dropped(lines: Seq<Text>, n: int) -> Seq<Text> {
    if n <= lines.len() {
        lines.skip(n)
    } else {
        Seq::empty()
    }
}

/// The line at a place, where there is one.
pub open spec fn line_at(lines: Seq<Text>, n: int) -> Option<Text> {
    if 0 <= n < lines.len() {
        Some(lines[n])
    } else {
        None
    }
}

/// The lines of a text that are still to be read.
pub struct Lines {
    lines: Vec<String>,
    next: usize,
}

impl View for Lines {
    type V = Seq<Text>;

    closed spec fn view(&self) -> Seq<Text> {
        dropped(views(self.lines@), self.next as int)
    }
}

impl Lines {
    /// All lines of a text.
    pub fn new(text: &str) -> (r: Lines)
        ensures
            r@ == lines_of(text@),
    {
        let r = Lines { lines: lines(text), next: 0 };
        assert(r@ =~= lines_of(text@));
        r
    }

    /// How many lines are left, at most.
    pub fn len(&self) -> (r: usize)
        ensures
            r == self@.len(),
    {
        if self.next < self.lines.len() {
            self.lines.len() - self.next
        } else {
            0
        }
    }

    /// The next line, where there is one.
    pub fn next(&mut self) -> (r: Option<String>)
        ensures
            option_view(r) == line_at(old(self)@, 0),
            final(self)@ == dropped(old(self)@, 1),
    {
        if self.next < self.lines.len() {
            let line = self.lines[self.next].clone();
            self.next = self.next + 1;
            assert(self@ =~= dropped(old(self)@, 1));
            Some(line)
        } else {
            assert(self@ =~= dropped(old(self)@, 1));
            None
        }
    }
}

/// Leaving out lines twice is leaving out as many at once.
pub proof fn lemma_dropped(lines: Seq<Text>, n: int)
    requires
        n >= 0,
    ensures
        dropped(dropped(lines, n), 1) == dropped(lines, n + 1),
        line_at(dropped(lines, n), 0) == line_at(lines, n),
{
    assert(dropped(dropped(lines, n), 1) =~= dropped(lines, n + 1));
}

/// The error of a value that cannot be read.
pub open spec fn invalid_value(label: Text, value: Text, error: Text) -> Text {
    "Invalid "@ + label + " '"@ + value + "': "@ + error
}

/// The error of a value that cannot be read.
pub fn invalid(label: &str, value: &str, error: &str) -> (r: String)
    ensures
        r@ == invalid_value(label@, value@, error@),
{
    text5("Invalid ", label, " '", value, "': ").concat(error)
}

/// The value that `value` denotes; `label` says in an error what it is.
pub open spec fn number_in<T: Token>(value: Text, label: Text) -> Result<T::V, Text> {
    match T::read(value) {
        Ok(v) => Ok(v),
        Err(e) => Err(invalid_value(label, value, e)),
    }
}

/// The value that a word denotes.
pub fn parse_number<T: Token>(value: &str, label: &str) -> (r: Result<T, String>)
    ensures
        result_view(r) == number_in::<T>(value@, label@),
{
    match T::from_token(value) {
        Ok(v) => Ok(v),
        Err(e) => Err(invalid(label, value, e.as_str())),
    }
}

/// The value of the field at `index`.
pub open spec fn field_in<T: Token>(fields: Seq<Text>, index: int, label: Text) -> Result<
    T::V,
    Text,
> {
    if 0 <= index < fields.len() {
        number_in::<T>(fields[index], label)
    } else {
        Err("Missing "@ + label + " field at column "@ + decimal_of(index as nat))
    }
}

/// The value of the field at `index`.
pub fn parse_field<T: Token>(fields: &Vec<String>, index: usize, label: &str) -> (r: Result<
    T,
    String,
>)
    ensures
        result_view(r) == field_in::<T>(views(fields@), index as int, label@),
{
    if index < fields.len() {
        assert(views(fields@)[index as int] == fields@[index as int]@);
        parse_number::<T>(fields[index].as_str(), label)
    } else {
        let column = decimal(index as u64);
        Err(text3("Missing ", label, " field at column ").concat(column.as_str()))
    }
}

/// The value on a line of its own, white space around it left out.
pub open spec fn line_value<T: Token>(line: Option<Text>, label: Text) -> Result<T::V, Text> {
    match line {
        None => Err("Expected "@ + label + ", found end of dump"@),
        Some(line) => match T::read(trimmed(line)) {
            Ok(v) => Ok(v),
            Err(e) => Err(invalid_value(label, line, e)),
        },
    }
}

/// The value on the next line.
pub fn parse_next<T: Token>(lines: &mut Lines, label: &str) -> (r: Result<T, String>)
    ensures
        result_view(r) == line_value::<T>(line_at(old(lines)@, 0), label@),
        final(lines)@ == dropped(old(lines)@, 1),
{
    match lines.next() {
        None => Err(text3("Expected ", label, ", found end of dump")),
        Some(line) => {
            let value = trim(line.as_str());
            match T::from_token(value.as_str()) {
                Ok(v) => Ok(v),
                Err(e) => Err(invalid(label, line.as_str(), e.as_str())),
            }
        },
    }
}

/// Whether a line is the one expected, white space around it left out.
pub open spec fn item_line(line: Option<Text>, expected: Text) -> Result<(), Text> {
    match line {
        None => Err("Expected "@ + expected + ", found end of dump"@),
        Some(line) => if trimmed(line) == expected {
            Ok(())
        } else {
            Err("Expected "@ + expected + ", found: "@ + line)
        },
    }
}

/// Reads the next line, which has to be the one expected.
pub fn expect_item(lines: &mut Lines, expected: &str) -> (r: Result<(), String>)
    ensures
        result_view(r) == item_line(line_at(old(lines)@, 0), expected@),
        final(lines)@ == dropped(old(lines)@, 1),
{
    match lines.next() {
        None => Err(text3("Expected ", expected, ", found end of dump")),
        Some(line) => {
            let item = trim(line.as_str());
            if same(item.as_str(), expected) {
                Ok(())
            } else {
                Err(text3("Expected ", expected, ", found: ").concat(line.as_str()))
            }
        },
    }
}

/// Where the first column of a name stands.
pub open spec fn column_in(columns: Seq<Text>, name: Text) -> Result<usize, Text> {
    match columns.index_of_first(name) {
        Some(i) => Ok(i as usize),
        None => Err("LAMMPS dump atom table is missing '"@ + name + "' column"@),
    }
}

/// Where the first column of a name stands.
pub fn column_index(columns: &Vec<String>, name: &str) -> (r: Result<usize, String>)
    ensures
        result_view(r) == column_in(views(columns@), name@),
        r matches Ok(i) ==> i < columns@.len() && columns@[i as int]@ == name@,
{
    let ghost all = views(columns@);
    let mut i: usize = 0;
    while i < columns.len()
        invariant
            i <= columns@.len(),
            all == views(columns@),
            forall|j: int| 0 <= j < i ==> all[j] != name@,
        decreases columns@.len() - i,
    {
        assert(all[i as int] == columns@[i as int]@);
        if same(columns[i].as_str(), name) {
            proof {
                all.index_of_first_ensures(name@);
            }
            return Ok(i);
        }
        i += 1;
    }
    proof {
        all.index_of_first_ensures(name@);
    }
    Err(text3("LAMMPS dump atom table is missing '", name, "' column"))
}

} // verus!
