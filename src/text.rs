//! Text helpers: building strings, splitting lines, lower-casing.
use vstd::prelude::*;
use vstd::string::*;

verus! {

/// Builds a `String` holding exactly the characters of `s`.
pub fn string_of(s: &str) -> (r: String)
    ensures
        r@ == s@,
{
    String::from_str(s)
}

/// Appends `tail` to `buf`.
pub fn push_str(buf: &mut String, tail: &str)
    ensures
        final(buf)@ == old(buf)@ + tail@,
{
    buf.append(tail);
}


/// What `str::to_lowercase` makes of a sequence of characters.
pub uninterp spec fn lower_of(s: Seq<char>) -> Seq<char>;

/// Relies on `str::to_lowercase`: the lowercase mapping of each character,
/// which is one or more characters.
#[verifier::external_body]
pub(crate) fn lowercase(s: &str) -> (r: String)
    ensures
        r@ == lower_of(s@),
        r@.len() >= s@.len(),
{
    s.to_lowercase()
}


/// No line break in `s`.
pub open spec fn single_line(s: Seq<char>) -> bool {
    forall|i: int| 0 <= i < s.len() ==> s[i] != '\n'
}

/// Each line followed by a line break, one after the other.
pub open spec fn joined(lines: Seq<Seq<char>>) -> Seq<char>
    decreases lines.len(),
{
    if lines.len() == 0 {
        Seq::empty()
    } else {
        joined(lines.drop_last()) + lines.last() + seq!['\n']
    }
}

/// The text views of a vector of strings.
pub open spec fn views(v: Seq<String>) -> Seq<Seq<char>> {
    v.map_values(|s: String| s@)
}

/// `lines` is how `text` splits at line breaks: every line but perhaps a
/// non-empty last one is followed by a break.
pub open spec fn splits_into(text: Seq<char>, lines: Seq<Seq<char>>) -> bool {
    &&& forall|i: int| 0 <= i < lines.len() ==> single_line(#[trigger] lines[i])
    &&& (text == joined(lines) || (lines.len() > 0 && lines.last().len() > 0 && text == joined(
        lines.drop_last(),
    ) + lines.last()))
}

/// Splits `text` at each line break.
pub fn split_lines(text: &str) -> (r: Vec<String>)
    ensures
        splits_into(text@, views(r@)),
{
    let n = text.unicode_len();
    let mut lines: Vec<String> = Vec::new();
    let mut start: usize = 0;
    let mut i: usize = 0;
    while i < n
        invariant
            n == text@.len(),
            start <= i <= n,
            text@.subrange(0, start as int) == joined(views(lines@)),
            single_line(text@.subrange(start as int, i as int)),
            forall|j: int| 0 <= j < lines.len() ==> single_line(#[trigger] views(lines@)[j]),
        decreases n - i,
    {
        let c = text.get_char(i);
        if c == '\n' {
            let line = string_of(text.substring_char(start, i));
            let ghost before = views(lines@);
            lines.push(line);
            proof {
                assert(views(lines@).drop_last() =~= before);
                assert(views(lines@).last() == text@.subrange(start as int, i as int));
                assert forall|j: int| 0 <= j < lines.len() implies single_line(
                    #[trigger] views(lines@)[j],
                ) by {
                    if j < before.len() {
                        assert(views(lines@)[j] == before[j]);
                    }
                }
                assert(text@.subrange(0, i as int + 1) =~= text@.subrange(0, start as int)
                    + text@.subrange(start as int, i as int) + seq!['\n']);
            }
            start = i + 1;
        } else {
            proof {
                assert(text@.subrange(start as int, i + 1) =~= text@.subrange(
                    start as int,
                    i as int,
                ).push(c));
            }
        }
        i = i + 1;
    }
    if start < n {
        let ghost before = views(lines@);
        let line = string_of(text.substring_char(start, n));
        lines.push(line);
        proof {
            assert(views(lines@).drop_last() =~= before);
            assert(views(lines@).last() == text@.subrange(start as int, n as int));
            assert forall|j: int| 0 <= j < lines.len() implies single_line(
                #[trigger] views(lines@)[j],
            ) by {
                if j < before.len() {
                    assert(views(lines@)[j] == before[j]);
                }
            }
            assert(text@ =~= text@.subrange(0, start as int) + text@.subrange(start as int, n as int));
        }
    } else {
        assert(text@ =~= text@.subrange(0, start as int));
    }
    lines
}

/// The non-empty lines of `text`, in order.
pub fn content_lines(text: &str) -> (r: Vec<String>)
    ensures
        exists|lines: Seq<Seq<char>>|
            splits_into(text@, lines) && views(r@) == lines.filter(|l: Seq<char>| l.len() > 0),
{
    let all = split_lines(text);
    let ghost pred = |l: Seq<char>| l.len() > 0;
    let mut r: Vec<String> = Vec::new();
    let mut i: usize = 0;
    while i < all.len()
        invariant
            i <= all.len(),
            pred == (|l: Seq<char>| l.len() > 0),
            views(r@) == views(all@).subrange(0, i as int).filter(pred),
        decreases all.len() - i,
    {
        let ghost before = views(r@);
        proof {
            assert(views(all@).subrange(0, i + 1) =~= views(all@).subrange(0, i as int).push(
                views(all@)[i as int],
            ));
            views(all@).subrange(0, i as int).lemma_filter_push(views(all@)[i as int], pred);
        }
        if all[i].unicode_len() > 0 {
            r.push(all[i].clone());
            assert(views(r@) =~= before.push(views(all@)[i as int]));
        }
        i = i + 1;
    }
    assert(views(all@).subrange(0, all.len() as int) =~= views(all@));
    r
}

} // verus!
