use vstd::prelude::*;
use vstd::string::StrSliceExecFns;
use crate::lookup::StringMap;

verus! {

/// The field delimiter of a mapping line.
pub const DELIMITER: char = ',';

/// Index of the first delimiter in `s`, or `s.len()` where there is none.
pub open spec fn field_end(s: Seq<char>) -> nat
    decreases s.len(),
{
    if s.len() == 0 {
        0
    } else if s[0] == DELIMITER {
        0
    } else {
        1 + field_end(s.drop_first())
    }
}

/// The text before the first delimiter.
pub open spec fn first_field(s: Seq<char>) -> Seq<char> {
    s.take(field_end(s) as int)
}

/// The (code, name) pair of a line: its first two comma-separated fields.
/// `None` where the line holds no delimiter, i.e. fewer than two fields.
pub open spec fn parse_line(l: Seq<char>) -> Option<(Seq<char>, Seq<char>)> {
    if field_end(l) == l.len() {
        None
    } else {
        Some((line_code(l), line_name(l)))
    }
}

/// The first field of a line: its canonical code.
pub open spec fn line_code(l: Seq<char>) -> Seq<char> {
    first_field(l)
}

/// The second field of a line: its name.
pub open spec fn line_name(l: Seq<char>) -> Seq<char> {
    first_field(l.skip(field_end(l) + 1int))
}

/// A line is acceptable when it is empty (and skipped) or holds two fields.
pub open spec fn line_ok(l: Seq<char>) -> bool {
    l.len() == 0 || parse_line(l) is Some
}

/// The (code, name) pairs of the lines, in order; empty lines are skipped.
pub open spec fn entries_of(lines: Seq<Seq<char>>) -> Seq<(Seq<char>, Seq<char>)>
    decreases lines.len(),
{
    if lines.len() == 0 {
        Seq::empty()
    } else {
        let prev = entries_of(lines.drop_last());
        match parse_line(lines.last()) {
            Some(p) => prev.push(p),
            None => prev,
        }
    }
}

/// Code to name over the pairs, a later pair overwriting an earlier one.
pub open spec fn code_to_name_of(e: Seq<(Seq<char>, Seq<char>)>) -> Map<Seq<char>, Seq<char>>
    decreases e.len(),
{
    if e.len() == 0 {
        Map::empty()
    } else {
        code_to_name_of(e.drop_last()).insert(e.last().0, e.last().1)
    }
}

/// Name to code over the pairs, a later pair overwriting an earlier one.
pub open spec fn name_to_code_of(e: Seq<(Seq<char>, Seq<char>)>) -> Map<Seq<char>, Seq<char>>
    decreases e.len(),
{
    if e.len() == 0 {
        Map::empty()
    } else {
        name_to_code_of(e.drop_last()).insert(e.last().1, e.last().0)
    }
}

/// The abstract content of a mapping table.
pub struct MappingView {
    pub code_to_name: Map<Seq<char>, Seq<char>>,
    pub name_to_code: Map<Seq<char>, Seq<char>>,
}

/// The table that a sequence of lines describes.
pub open spec fn mapping_of(lines: Seq<Seq<char>>) -> MappingView {
    MappingView {
        code_to_name: code_to_name_of(entries_of(lines)),
        name_to_code: name_to_code_of(entries_of(lines)),
    }
}

/// The views of a list of lines.
pub open spec fn lines_view(lines: Seq<String>) -> Seq<Seq<char>> {
    lines.map_values(|l: String| l@)
}

/// A two-way lookup between canonical codes and names.
pub struct MappingTable {
    pub code_to_name: StringMap,
    pub name_to_code: StringMap,
}

impl View for MappingTable {
    type V = MappingView;

    open spec fn view(&self) -> MappingView {
        MappingView { code_to_name: self.code_to_name@, name_to_code: self.name_to_code@ }
    }
}

impl MappingTable {
    pub open spec fn wf(&self) -> bool {
        self.code_to_name.wf() && self.name_to_code.wf()
    }
}

/// A fault in the text of a mapping file.
#[derive(Debug, PartialEq, Eq, Structural)]
pub enum MappingError {
    /// The line at this index (from 0) holds fewer than two fields.
    MissingField(usize),
}

/// Finds the first delimiter of `s` at or after `from`.
fn find_delimiter(s: &str, from: usize) -> (r: usize)
    requires
        from <= s@.len(),
    ensures
        r == from + field_end(s@.skip(from as int)),
        r <= s@.len(),
{
    let n = s.unicode_len();
    let mut i: usize = from;
    while i < n
        invariant
            from <= i <= n == s@.len(),
            field_end(s@.skip(from as int)) == (i - from) + field_end(s@.skip(i as int)),
        decreases n - i,
    {
        if s.get_char(i) == DELIMITER {
            return i;
        }
        assert(s@.skip(i as int).drop_first() =~= s@.skip(i + 1));
        i = i + 1;
    }
    i
}

/// Splits one line into its code and name.
pub fn split_line(line: &str) -> (r: Option<(String, String)>)
    ensures
        r is None <==> parse_line(line@) is None,
        r matches Some(p) ==> parse_line(line@) == Some((p.0@, p.1@)),
{
    let n = line.unicode_len();
    let i = find_delimiter(line, 0);
    assert(line@.skip(0) =~= line@);
    if i == n {
        return None;
    }
    let j = find_delimiter(line, i + 1);
    let code = line.substring_char(0, i);
    let name = line.substring_char(i + 1, j);
    let ghost rest = line@.skip(i + 1);
    assert(name@ =~= rest.take(field_end(rest) as int));
    assert(code@ =~= line@.take(i as int));
    Some((code.to_owned(), name.to_owned()))
}

/// Builds the two-way table from the lines of a mapping file. Each non-empty
/// line gives a code and a name; a later line overwrites an earlier one with
/// the same code (or name). A non-empty line without a delimiter is refused,
/// and no table is returned.
pub fn load_parameter_maps(lines: &Vec<String>) -> (r: Result<MappingTable, MappingError>)
    ensures
        r is Ok <==> forall|i: int| 0 <= i < lines@.len() ==> line_ok(#[trigger] lines@[i]@),
        r matches Ok(t) ==> t.wf() && t@ == mapping_of(lines_view(lines@)),
        r matches Err(MappingError::MissingField(k)) ==> {
            &&& k < lines@.len()
            &&& !line_ok(lines@[k as int]@)
            &&& forall|i: int| 0 <= i < k ==> line_ok(#[trigger] lines@[i]@)
        },
{
    let ghost lv = lines_view(lines@);
    let mut code_to_name = StringMap::new();
    let mut name_to_code = StringMap::new();
    let mut i: usize = 0;
    while i < lines.len()
        invariant
            i <= lines@.len(),
            lv == lines_view(lines@),
            code_to_name.wf(),
            name_to_code.wf(),
            code_to_name@ == code_to_name_of(entries_of(lv.take(i as int))),
            name_to_code@ == name_to_code_of(entries_of(lv.take(i as int))),
            forall|j: int| 0 <= j < i ==> line_ok(#[trigger] lines@[j]@),
        decreases lines@.len() - i,
    {
        let line = &lines[i];
        assert(lv.take(i + 1).drop_last() =~= lv.take(i as int));
        assert(lv.take(i + 1).last() == line@);
        if line.unicode_len() > 0 {
            match split_line(line.as_str()) {
                None => {
                    return Err(MappingError::MissingField(i));
                },
                Some((code, name)) => {
                    proof {
                        let prev = entries_of(lv.take(i as int));
                        let next = prev.push((code@, name@));
                        assert(entries_of(lv.take(i + 1)) == next);
                        assert(next.drop_last() =~= prev);
                    }
                    let code2 = code.clone();
                    let name2 = name.clone();
                    code_to_name.insert(code, name);
                    name_to_code.insert(name2, code2);
                },
            }
        } else {
            assert(parse_line(line@) is None);
            assert(entries_of(lv.take(i + 1)) == entries_of(lv.take(i as int)));
        }
        i = i + 1;
    }
    assert(lv.take(i as int) =~= lv);
    Ok(MappingTable { code_to_name, name_to_code })
}

} // verus!
