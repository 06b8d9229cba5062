//! Small verified operations on text.
use vstd::prelude::*;

verus! {

/// Whether two texts hold the same characters.
pub fn same_text(a: &str, b: &str) -> (r: bool)
    ensures
        r == (a@ == b@),
{
    let n = a.unicode_len();
    if n != b.unicode_len() {
        return false;
    }
    let mut i: usize = 0;
    while i < n
        invariant
            n == a@.len(),
            n == b@.len(),
            i <= n,
            forall|j: int| 0 <= j < i ==> a@[j] == b@[j],
        decreases n - i,
    {
        if a.get_char(i) != b.get_char(i) {
            return false;
        }
        i = i + 1;
    }
    assert(a@ =~= b@);
    true
}

/// Whether some text of `items` equals `needle`.
pub open spec fn holds_text(items: Seq<String>, needle: Seq<char>) -> bool {
    exists|i: int| 0 <= i < items.len() && #[trigger] items[i]@ == needle
}

/// Whether some text of `items` equals `needle`.
pub fn contains_text(items: &Vec<String>, needle: &str) -> (r: bool)
    ensures
        r == holds_text(items@, needle@),
{
    let mut i: usize = 0;
    while i < items.len()
        invariant
            i <= items@.len(),
            forall|j: int| 0 <= j < i ==> items@[j]@ != needle@,
        decreases items@.len() - i,
    {
        if same_text(items[i].as_str(), needle) {
            return true;
        }
        i = i + 1;
    }
    false
}

/// `prefix` followed by `rest`, as a new string.
pub fn concat_text(prefix: &str, rest: &str) -> (r: String)
    ensures
        r@ == prefix@ + rest@,
{
    let mut s = String::from_str(prefix);
    s.append(rest);
    s
}

/// Whether a character breaks a line.
pub open spec fn is_line_break(c: char) -> bool {
    c == '\n' || c == '\r'
}

/// `s` with every line break left out.
pub open spec fn without_line_breaks(s: Seq<char>) -> Seq<char>
    decreases s.len(),
{
    if s.len() == 0 {
        s
    } else if is_line_break(s.last()) {
        without_line_breaks(s.drop_last())
    } else {
        without_line_breaks(s.drop_last()).push(s.last())
    }
}

/// Leaving out line breaks leaves none, and doing it twice is doing it once.
pub proof fn law_without_line_breaks(s: Seq<char>)
    ensures
        forall|i: int|
            0 <= i < without_line_breaks(s).len() ==> !is_line_break(
                #[trigger] without_line_breaks(s)[i],
            ),
        without_line_breaks(without_line_breaks(s)) == without_line_breaks(s),
        without_line_breaks(s).len() <= s.len(),
    decreases s.len(),
{
    if s.len() > 0 {
        law_without_line_breaks(s.drop_last());
        let w = without_line_breaks(s.drop_last());
        if !is_line_break(s.last()) {
            assert(w.push(s.last()).drop_last() =~= w);
            assert forall|i: int| 0 <= i < w.push(s.last()).len() implies !is_line_break(
                #[trigger] w.push(s.last())[i],
            ) by {
                if i < w.len() {
                    assert(w.push(s.last())[i] == w[i]);
                }
            }
        }
    }
}

/// Leaving out line breaks keeps every other character, in order: it is
/// `s` filtered by "not `\n` and not `\r`". Text without a line break is
/// kept whole.
pub proof fn law_line_breaks_filter(s: Seq<char>)
    ensures
        without_line_breaks(s) == s.filter(|c: char| c != '\n' && c != '\r'),
        (forall|i: int| 0 <= i < s.len() ==> s[i] != '\n' && s[i] != '\r')
            ==> without_line_breaks(s) == s,
    decreases s.len(),
{
    reveal(Seq::filter);
    if s.len() > 0 {
        law_line_breaks_filter(s.drop_last());
        if forall|i: int| 0 <= i < s.len() ==> s[i] != '\n' && s[i] != '\r' {
            assert(forall|i: int|
                0 <= i < s.drop_last().len() ==> s.drop_last()[i] == s[i]);
            assert(s.drop_last().push(s.last()) =~= s);
        }
    }
}

/// `s` with every line break left out.
pub fn strip_line_breaks(s: &str) -> (r: String)
    ensures
        r@ == without_line_breaks(s@),
        r@ == s@.filter(|c: char| c != '\n' && c != '\r'),
{
    proof {
        law_line_breaks_filter(s@);
    }
    let n = s.unicode_len();
    let mut r = String::new();
    let mut i: usize = 0;
    while i < n
        invariant
            n == s@.len(),
            i <= n,
            r@ == without_line_breaks(s@.take(i as int)),
        decreases n - i,
    {
        assert(s@.take(i + 1).drop_last() =~= s@.take(i as int));
        let c = s.get_char(i);
        if c != '\n' && c != '\r' {
            let piece = s.substring_char(i, i + 1);
            r.append(piece);
            assert(piece@ =~= seq![c]);
        }
        i = i + 1;
    }
    assert(s@.take(n as int) =~= s@);
    r
}

} // verus!
