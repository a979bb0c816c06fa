use vstd::prelude::*;
use crate::mapping::{entries_of, line_code, line_name, mapping_of, parse_line};

verus! {

/// The code of the line at `j` is not given again by any later line.
pub open spec fn code_last_at(lines: Seq<Seq<char>>, j: int) -> bool {
    forall|k: int|
        j < k < lines.len() && #[trigger] parse_line(lines[k]) is Some
            ==> line_code(lines[k]) != line_code(lines[j])
}

/// The name of the line at `j` is not given again by any later line.
pub open spec fn name_last_at(lines: Seq<Seq<char>>, j: int) -> bool {
    forall|k: int|
        j < k < lines.len() && #[trigger] parse_line(lines[k]) is Some
            ==> line_name(lines[k]) != line_name(lines[j])
}

/// Last write wins: the table maps a code to the name on the last line that
/// gives that code, whatever earlier lines gave it.
pub proof fn lemma_last_write_wins(lines: Seq<Seq<char>>, j: int)
    requires
        0 <= j < lines.len(),
        parse_line(lines[j]) is Some,
        code_last_at(lines, j),
    ensures
        mapping_of(lines).code_to_name.contains_key(line_code(lines[j])),
        mapping_of(lines).code_to_name[line_code(lines[j])] == line_name(lines[j]),
    decreases lines.len(),
{
    let prefix = lines.drop_last();
    if j < lines.len() - 1 {
        assert(prefix[j] == lines[j]);
        assert forall|k: int| j < k < prefix.len() && #[trigger] parse_line(prefix[k]) is Some implies
            line_code(prefix[k]) != line_code(prefix[j]) by {
            assert(prefix[k] == lines[k]);
            assert(parse_line(lines[k]) is Some);
        }
        lemma_last_write_wins(prefix, j);
        if parse_line(lines.last()) is Some {
            assert(parse_line(lines[lines.len() - 1]) is Some);
            assert(entries_of(lines) == entries_of(prefix).push(parse_line(lines.last())->0));
            assert(entries_of(lines).drop_last() =~= entries_of(prefix));
        }
    } else {
        assert(entries_of(lines).drop_last() =~= entries_of(prefix));
    }
}

/// The name-to-code direction obeys the same rule: the last line giving a
/// name decides its code.
pub proof fn lemma_last_write_wins_by_name(lines: Seq<Seq<char>>, j: int)
    requires
        0 <= j < lines.len(),
        parse_line(lines[j]) is Some,
        name_last_at(lines, j),
    ensures
        mapping_of(lines).name_to_code.contains_key(line_name(lines[j])),
        mapping_of(lines).name_to_code[line_name(lines[j])] == line_code(lines[j]),
    decreases lines.len(),
{
    let prefix = lines.drop_last();
    if j < lines.len() - 1 {
        assert(prefix[j] == lines[j]);
        assert forall|k: int| j < k < prefix.len() && #[trigger] parse_line(prefix[k]) is Some implies
            line_name(prefix[k]) != line_name(prefix[j]) by {
            assert(prefix[k] == lines[k]);
            assert(parse_line(lines[k]) is Some);
        }
        lemma_last_write_wins_by_name(prefix, j);
        if parse_line(lines.last()) is Some {
            assert(parse_line(lines[lines.len() - 1]) is Some);
            assert(entries_of(lines) == entries_of(prefix).push(parse_line(lines.last())->0));
            assert(entries_of(lines).drop_last() =~= entries_of(prefix));
        }
    } else {
        assert(entries_of(lines).drop_last() =~= entries_of(prefix));
    }
}

/// The codes of the lines, in order.
pub open spec fn codes_of(lines: Seq<Seq<char>>) -> Seq<Seq<char>> {
    lines.map_values(|l: Seq<char>| line_code(l))
}

/// The names of the lines, in order.
pub open spec fn names_of(lines: Seq<Seq<char>>) -> Seq<Seq<char>> {
    lines.map_values(|l: Seq<char>| line_name(l))
}

/// Every line holds a code and a name.
pub open spec fn all_pairs(lines: Seq<Seq<char>>) -> bool {
    forall|i: int| 0 <= i < lines.len() ==> #[trigger] parse_line(lines[i]) is Some
}

proof fn lemma_domains(lines: Seq<Seq<char>>)
    requires
        all_pairs(lines),
    ensures
        mapping_of(lines).code_to_name.dom() == codes_of(lines).to_set(),
        mapping_of(lines).name_to_code.dom() == names_of(lines).to_set(),
    decreases lines.len(),
{
    if lines.len() > 0 {
        let prefix = lines.drop_last();
        assert forall|i: int| 0 <= i < prefix.len() implies #[trigger] parse_line(prefix[i]) is Some by {
            assert(prefix[i] == lines[i]);
        }
        lemma_domains(prefix);
        let last = lines.last();
        assert(parse_line(lines[lines.len() - 1]) is Some);
        let e = entries_of(lines);
        assert(e == entries_of(prefix).push((line_code(last), line_name(last))));
        assert(e.drop_last() =~= entries_of(prefix));
        assert(codes_of(lines) =~= codes_of(prefix).push(line_code(last)));
        assert(names_of(lines) =~= names_of(prefix).push(line_name(last)));
        assert(codes_of(lines).to_set() =~= codes_of(prefix).to_set().insert(line_code(last))) by {
            assert forall|c: Seq<char>| codes_of(lines).to_set().contains(c) implies
                codes_of(prefix).to_set().insert(line_code(last)).contains(c) by {
                let i = choose|i: int| 0 <= i < codes_of(lines).len() && codes_of(lines)[i] == c;
                if i < prefix.len() {
                    assert(codes_of(prefix)[i] == c);
                }
            }
            assert forall|c: Seq<char>| codes_of(prefix).to_set().insert(line_code(last)).contains(c) implies
                codes_of(lines).to_set().contains(c) by {
                if c == line_code(last) {
                    assert(codes_of(lines)[lines.len() - 1] == c);
                } else {
                    let i = choose|i: int| 0 <= i < codes_of(prefix).len() && codes_of(prefix)[i] == c;
                    assert(codes_of(lines)[i] == c);
                }
            }
        }
        assert(names_of(lines).to_set() =~= names_of(prefix).to_set().insert(line_name(last))) by {
            assert forall|c: Seq<char>| names_of(lines).to_set().contains(c) implies
                names_of(prefix).to_set().insert(line_name(last)).contains(c) by {
                let i = choose|i: int| 0 <= i < names_of(lines).len() && names_of(lines)[i] == c;
                if i < prefix.len() {
                    assert(names_of(prefix)[i] == c);
                }
            }
            assert forall|c: Seq<char>| names_of(prefix).to_set().insert(line_name(last)).contains(c) implies
                names_of(lines).to_set().contains(c) by {
                if c == line_name(last) {
                    assert(names_of(lines)[lines.len() - 1] == c);
                } else {
                    let i = choose|i: int| 0 <= i < names_of(prefix).len() && names_of(prefix)[i] == c;
                    assert(names_of(lines)[i] == c);
                }
            }
        }
        assert(mapping_of(lines).code_to_name.dom() =~= codes_of(lines).to_set());
        assert(mapping_of(lines).name_to_code.dom() =~= names_of(lines).to_set());
    } else {
        assert(codes_of(lines).to_set() =~= Set::empty());
        assert(names_of(lines).to_set() =~= Set::empty());
        assert(mapping_of(lines).code_to_name.dom() =~= Set::empty());
        assert(mapping_of(lines).name_to_code.dom() =~= Set::empty());
    }
}

/// A file of N lines, each with a code and a name, where no code and no name
/// repeats, gives a bijection: both directions hold exactly N entries, and
/// looking up the name of a code and then the code of that name returns the
/// code.
pub proof fn lemma_distinct_lines_bijective(lines: Seq<Seq<char>>)
    requires
        all_pairs(lines),
        forall|i: int, j: int|
            0 <= i < lines.len() && 0 <= j < lines.len() && i != j
                ==> line_code(lines[i]) != line_code(lines[j]) && line_name(lines[i]) != line_name(lines[j]),
    ensures
        mapping_of(lines).code_to_name.dom().finite(),
        mapping_of(lines).code_to_name.dom().len() == lines.len(),
        mapping_of(lines).name_to_code.dom().finite(),
        mapping_of(lines).name_to_code.dom().len() == lines.len(),
        forall|c: Seq<char>| #[trigger] mapping_of(lines).code_to_name.contains_key(c) ==> {
            let n = mapping_of(lines).code_to_name[c];
            mapping_of(lines).name_to_code.contains_key(n) && mapping_of(lines).name_to_code[n] == c
        },
{
    let m = mapping_of(lines);
    lemma_domains(lines);
    assert(codes_of(lines).no_duplicates()) by {
        assert forall|i: int, j: int| 0 <= i < codes_of(lines).len() && 0 <= j < codes_of(lines).len() && i != j implies
            codes_of(lines)[i] != codes_of(lines)[j] by {
            assert(line_code(lines[i]) != line_code(lines[j]));
        }
    }
    assert(names_of(lines).no_duplicates()) by {
        assert forall|i: int, j: int| 0 <= i < names_of(lines).len() && 0 <= j < names_of(lines).len() && i != j implies
            names_of(lines)[i] != names_of(lines)[j] by {
            assert(line_name(lines[i]) != line_name(lines[j]));
        }
    }
    codes_of(lines).unique_seq_to_set();
    names_of(lines).unique_seq_to_set();
    assert forall|c: Seq<char>| #[trigger] m.code_to_name.contains_key(c) implies {
        let n = m.code_to_name[c];
        m.name_to_code.contains_key(n) && m.name_to_code[n] == c
    } by {
        assert(codes_of(lines).to_set().contains(c));
        let i = choose|i: int| 0 <= i < codes_of(lines).len() && codes_of(lines)[i] == c;
        assert(parse_line(lines[i]) is Some);
        assert forall|k: int| i < k < lines.len() && #[trigger] parse_line(lines[k]) is Some implies
            line_code(lines[k]) != line_code(lines[i]) by {}
        assert forall|k: int| i < k < lines.len() && #[trigger] parse_line(lines[k]) is Some implies
            line_name(lines[k]) != line_name(lines[i]) by {}
        lemma_last_write_wins(lines, i);
        lemma_last_write_wins_by_name(lines, i);
    }
}

} // verus!
