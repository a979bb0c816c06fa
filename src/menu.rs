use vstd::prelude::*;
use vstd::string::{StrSliceExecFns, StringExecFns};

verus! {

/// The label of the option that ends the run without output.
pub open spec fn quit_label() -> Seq<char> {
    seq!['Q', 'u', 'i', 't']
}

/// The quit option as text.
pub fn quit_option() -> (r: String)
    ensures
        r@ == quit_label(),
{
    let r = String::from_str("Quit");
    proof {
        reveal_strlit("Quit");
        assert(r@ =~= quit_label());
    }
    r
}

/// Whether `s` ends with `suffix`.
pub open spec fn ends_with(s: Seq<char>, suffix: Seq<char>) -> bool {
    suffix.len() <= s.len() && s.subrange(s.len() - suffix.len(), s.len() as int) == suffix
}

/// Tests whether `s` ends with `suffix`.
pub fn has_suffix(s: &str, suffix: &str) -> (r: bool)
    ensures
        r == ends_with(s@, suffix@),
{
    let n = s.unicode_len();
    let m = suffix.unicode_len();
    if m > n {
        return false;
    }
    let start = n - m;
    let mut i: usize = 0;
    while i < m
        invariant
            n == s@.len(),
            m == suffix@.len(),
            start == n - m,
            i <= m,
            forall|k: int| 0 <= k < i ==> s@[start + k] == suffix@[k],
        decreases m - i,
    {
        if s.get_char(start + i) != suffix.get_char(i) {
            assert(s@.subrange(start as int, n as int)[i as int] != suffix@[i as int]);
            return false;
        }
        i = i + 1;
    }
    assert(s@.subrange(start as int, n as int) =~= suffix@);
    true
}

/// The entries of `files` that end with `suffix`, in order.
pub open spec fn matching(files: Seq<Seq<char>>, suffix: Seq<char>) -> Seq<Seq<char>>
    decreases files.len(),
{
    if files.len() == 0 {
        Seq::empty()
    } else if ends_with(files.last(), suffix) {
        matching(files.drop_last(), suffix).push(files.last())
    } else {
        matching(files.drop_last(), suffix)
    }
}

/// The views of a list of texts.
pub open spec fn texts_view(ts: Seq<String>) -> Seq<Seq<char>> {
    ts.map_values(|t: String| t@)
}

/// The options of a file menu: every file that ends with `suffix`, in the
/// order given, then the quit option.
pub fn menu_options(files: &Vec<String>, suffix: &str) -> (r: Vec<String>)
    ensures
        texts_view(r@) == matching(texts_view(files@), suffix@).push(quit_label()),
{
    let ghost fv = texts_view(files@);
    let mut r: Vec<String> = Vec::new();
    let mut i: usize = 0;
    assert(texts_view(r@) =~= Seq::<Seq<char>>::empty());
    while i < files.len()
        invariant
            i <= files@.len(),
            fv == texts_view(files@),
            texts_view(r@) == matching(fv.take(i as int), suffix@),
        decreases files@.len() - i,
    {
        let ghost before = texts_view(r@);
        assert(fv.take(i + 1).drop_last() =~= fv.take(i as int));
        assert(fv.take(i + 1).last() == files@[i as int]@);
        if has_suffix(files[i].as_str(), suffix) {
            r.push(files[i].clone());
            assert(texts_view(r@) =~= before.push(files@[i as int]@));
        }
        i = i + 1;
    }
    assert(fv.take(i as int) =~= fv);
    let ghost before = texts_view(r@);
    r.push(quit_option());
    assert(texts_view(r@) =~= before.push(quit_label()));
    r
}

/// Whether a menu choice is the quit option.
pub fn is_quit(choice: &String) -> (r: bool)
    ensures
        r == (choice@ == quit_label()),
{
    *choice == quit_option()
}

} // verus!
