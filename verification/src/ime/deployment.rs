//! The compiled-dictionary cache: the fingerprint that names a build, which
//! old builds are removed, and which engine data directories are trusted.
use crate::text::{chars_of, precedes, push_char};
use crate::ui::selector::{is_permutation, name_order, sorted_by_name};
use vstd::prelude::*;

verus! {

broadcast use vstd::string::group_string_axioms;

/// Where the first line break of `s` is (its length when there is none).
pub open spec fn first_newline(s: Seq<char>) -> int
    decreases s.len(),
{
    if s.len() == 0 {
        0
    } else if s[0] == '\n' {
        0
    } else {
        1 + first_newline(s.drop_first())
    }
}

/// The first line break is within the text, or is its end.
pub proof fn lemma_first_newline_bounds(s: Seq<char>)
    ensures
        0 <= first_newline(s) <= s.len(),
        first_newline(s) < s.len() ==> s[first_newline(s)] == '\n',
        forall|j: int| 0 <= j < first_newline(s) ==> s[j] != '\n',
    decreases s.len(),
{
    if s.len() > 0 && s[0] != '\n' {
        lemma_first_newline_bounds(s.drop_first());
        assert forall|j: int| 0 <= j < first_newline(s) implies s[j] != '\n' by {
            if j > 0 {
                assert(s[j] == s.drop_first()[j - 1]);
            }
        }
    }
}

/// A line without the carriage return that ends it, if one does.
pub open spec fn without_cr(line: Seq<char>) -> Seq<char> {
    if line.len() > 0 && line.last() == '\r' {
        line.drop_last()
    } else {
        line
    }
}

/// The lines of `s` as `str::lines` gives them: split at each `\n`, a `\r`
/// right before it dropped, and no empty line after a final `\n`.
pub open spec fn text_lines(s: Seq<char>) -> Seq<Seq<char>>
    decreases s.len(),
{
    if s.len() == 0 {
        Seq::empty()
    } else {
        let k = first_newline(s);
        if k >= s.len() {
            seq![s]
        } else {
            proof {
                lemma_first_newline_bounds(s);
            }
            seq![without_cr(s.take(k))] + text_lines(s.skip(k + 1))
        }
    }
}

/// `lines` joined with a `\n` between each two.
pub open spec fn joined_lines(lines: Seq<Seq<char>>) -> Seq<char>
    decreases lines.len(),
{
    if lines.len() == 0 {
        Seq::empty()
    } else if lines.len() == 1 {
        lines[0]
    } else {
        joined_lines(lines.drop_last()) + seq!['\n'] + lines.last()
    }
}

/// The first line break of `t`, when the first `k` characters are none and
/// the one at `k` is (or `k` is the end).
proof fn lemma_first_newline_at(t: Seq<char>, k: int)
    requires
        0 <= k <= t.len(),
        forall|j: int| 0 <= j < k ==> t[j] != '\n',
        k < t.len() ==> t[k] == '\n',
    ensures
        first_newline(t) == k,
    decreases k,
{
    if k > 0 {
        assert forall|j: int| 0 <= j < k - 1 implies t.drop_first()[j] != '\n' by {
            assert(t.drop_first()[j] == t[j + 1]);
        }
        lemma_first_newline_at(t.drop_first(), k - 1);
    }
}

/// The lines of `text`.
pub fn lines_of(text: &str) -> (lines: Vec<Vec<char>>)
    ensures
        lines@.map_values(|l: Vec<char>| l@) == text_lines(text@),
{
    let chars = chars_of(text);
    let ghost s = chars@;
    let mut lines: Vec<Vec<char>> = Vec::new();
    let mut current: Vec<char> = Vec::new();
    let mut start: usize = 0;
    let mut i: usize = 0;
    proof {
        assert(s.skip(0) =~= s);
        assert(lines@.map_values(|l: Vec<char>| l@) + text_lines(s) =~= text_lines(s));
    }
    while i < chars.len()
        invariant
            s == chars@,
            s == text@,
            start <= i <= s.len(),
            current@ == s.subrange(start as int, i as int),
            forall|j: int| start <= j < i ==> s[j] != '\n',
            lines@.map_values(|l: Vec<char>| l@) + text_lines(s.skip(start as int)) == text_lines(s),
        decreases s.len() - i,
    {
        let c = chars[i];
        if c == '\n' {
            let ghost rest = s.skip(start as int);
            proof {
                assert forall|j: int| 0 <= j < i - start implies rest[j] != '\n' by {
                    assert(rest[j] == s[start + j]);
                }
                lemma_first_newline_at(rest, i - start);
                assert(rest.take(i - start) =~= current@);
                assert(rest.skip(i - start + 1) =~= s.skip(i + 1));
                assert(text_lines(rest) == seq![without_cr(current@)] + text_lines(s.skip(i + 1)));
            }
            let ghost before = lines@.map_values(|l: Vec<char>| l@);
            let line = drop_cr(current);
            lines.push(line);
            proof {
                assert(lines@.map_values(|l: Vec<char>| l@) =~= before.push(without_cr(current@)));
                assert(before.push(without_cr(current@)) + text_lines(s.skip(i + 1)) =~= before + (
                seq![without_cr(current@)] + text_lines(s.skip(i + 1))));
            }
            current = Vec::new();
            start = i + 1;
        } else {
            current.push(c);
            proof {
                assert(current@ =~= s.subrange(start as int, i + 1));
            }
        }
        i = i + 1;
    }
    let ghost rest = s.skip(start as int);
    proof {
        assert forall|j: int| 0 <= j < rest.len() implies rest[j] != '\n' by {
            assert(rest[j] == s[start + j]);
        }
        lemma_first_newline_at(rest, rest.len() as int);
        assert(rest =~= current@);
    }
    if current.len() > 0 {
        let ghost before = lines@.map_values(|l: Vec<char>| l@);
        lines.push(current);
        proof {
            assert(lines@.map_values(|l: Vec<char>| l@) =~= before + text_lines(rest));
        }
    } else {
        proof {
            assert(lines@.map_values(|l: Vec<char>| l@) + text_lines(rest) =~= lines@.map_values(
                |l: Vec<char>| l@,
            ));
        }
    }
    lines
}

/// `line` without a final carriage return.
fn drop_cr(line: Vec<char>) -> (r: Vec<char>)
    ensures
        r@ == without_cr(line@),
{
    let mut line = line;
    if line.len() > 0 && line[line.len() - 1] == '\r' {
        line.pop();
    }
    line
}

/// `lines` in the order `order`.
pub open spec fn in_order(lines: Seq<Seq<char>>, order: Seq<usize>) -> Seq<Seq<char>> {
    order.map_values(|i: usize| lines[i as int])
}

/// The fingerprint of a dictionary build from its description: the lines
/// sorted, joined with line breaks.
pub fn fingerprint_text(description: &str) -> (r: String)
    ensures
        exists|order: Seq<usize>|
            {
                &&& is_permutation(order, text_lines(description@).len() as int)
                &&& sorted_by_name(text_lines(description@), order)
                &&& r@ == joined_lines(in_order(text_lines(description@), order))
            },
{
    let lines = lines_of(description);
    let ghost ls = lines@.map_values(|l: Vec<char>| l@);
    let order = name_order(&lines);
    let mut out = String::new();
    let mut k: usize = 0;
    while k < order.len()
        invariant
            ls == lines@.map_values(|l: Vec<char>| l@),
            ls == text_lines(description@),
            is_permutation(order@, ls.len() as int),
            k <= order@.len(),
            out@ == joined_lines(in_order(ls, order@).take(k as int)),
        decreases order@.len() - k,
    {
        let ghost done = in_order(ls, order@).take(k as int);
        if k > 0 {
            push_char(&mut out, '\n');
        }
        let line = &lines[order[k]];
        let mut j: usize = 0;
        let ghost base = out@;
        while j < line.len()
            invariant
                j <= line@.len(),
                out@ == base + line@.take(j as int),
            decreases line@.len() - j,
        {
            push_char(&mut out, line[j]);
            proof {
                assert(line@.take(j + 1) =~= line@.take(j as int).push(line@[j as int]));
            }
            j = j + 1;
        }
        proof {
            let next = in_order(ls, order@).take(k + 1);
            assert(next.drop_last() =~= done);
            assert(next.last() == line@);
            assert(line@.take(j as int) =~= line@);
            if k == 0 {
                assert(base =~= Seq::<char>::empty());
                assert(out@ =~= line@);
            } else {
                assert(out@ =~= joined_lines(done) + seq!['\n'] + line@);
            }
        }
        k = k + 1;
    }
    proof {
        assert(in_order(ls, order@).take(order@.len() as int) =~= in_order(ls, order@));
    }
    out
}

/// A cache entry named `compiled-…` other than the selected build: an old
/// build, removed when it is a directory.
pub fn is_stale_build(name: &str, selected: bool) -> (r: bool)
    ensures
        r == (name@.len() >= 9 && name@.take(9) == "compiled-"@ && !selected),
{
    proof {
        reveal_strlit("compiled-");
    }
    let c = chars_of(name);
    let prefix = c.len() >= 9 && c[0] == 'c' && c[1] == 'o' && c[2] == 'm' && c[3] == 'p' && c[4]
        == 'i' && c[5] == 'l' && c[6] == 'e' && c[7] == 'd' && c[8] == '-';
    proof {
        if c@.len() >= 9 {
            if prefix {
                assert(c@.take(9) =~= "compiled-"@);
            } else {
                assert(c@.take(9) != "compiled-"@) by {
                    if c@.take(9) == "compiled-"@ {
                        assert(c@.take(9)[0] == c@[0]);
                        assert(c@.take(9)[1] == c@[1]);
                        assert(c@.take(9)[2] == c@[2]);
                        assert(c@.take(9)[3] == c@[3]);
                        assert(c@.take(9)[4] == c@[4]);
                        assert(c@.take(9)[5] == c@[5]);
                        assert(c@.take(9)[6] == c@[6]);
                        assert(c@.take(9)[7] == c@[7]);
                        assert(c@.take(9)[8] == c@[8]);
                    }
                }
            }
        }
    }
    prefix && !selected
}

/// An engine data directory is trusted only when it is a real directory
/// (no symbolic link) owned by this process's user.
pub fn is_safe_engine_dir(is_dir: bool, is_symlink: bool, owner: u32, uid: u32) -> (r: bool)
    ensures
        r == (is_dir && !is_symlink && owner == uid),
{
    is_dir && !is_symlink && owner == uid
}

} // verus!
