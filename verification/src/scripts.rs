//! Ruby scripts: the list of script files to read, and the strings that the
//! literals of a parsed script give.

use vstd::prelude::*;

use crate::found::{GameString, GameStringView};
use crate::text::{decimal, is_whitespace, lemma_trim_ends, push_decimal, trim, trim_str};

verus! {

/// The index of the first line feed, or the length if there is none.
pub open spec fn newline_pos(s: Seq<char>) -> nat
    decreases s.len(),
{
    if s.len() == 0 || s[0] == '\n' {
        0
    } else {
        1 + newline_pos(s.drop_first())
    }
}

pub proof fn lemma_newline_pos(s: Seq<char>, k: int)
    requires
        0 <= k <= s.len(),
        forall|j: int| 0 <= j < k ==> s[j] != '\n',
        k == s.len() || s[k] == '\n',
    ensures
        newline_pos(s) == k,
    decreases k,
{
    if k > 0 {
        lemma_newline_pos(s.drop_first(), k - 1);
    }
}

pub proof fn lemma_newline_pos_bound(s: Seq<char>)
    ensures
        newline_pos(s) <= s.len(),
        newline_pos(s) < s.len() ==> s[newline_pos(s) as int] == '\n',
    decreases s.len(),
{
    if s.len() > 0 && s[0] != '\n' {
        lemma_newline_pos_bound(s.drop_first());
    }
}

/// A line without the carriage return that ends it, if it ends with one.
pub open spec fn strip_cr(l: Seq<char>) -> Seq<char> {
    if l.len() > 0 && l.last() == '\r' {
        l.drop_last()
    } else {
        l
    }
}

/// The lines of the text, as `str::lines` gives them: split at each line
/// feed, a carriage return right before a line feed dropped, and no empty
/// line after a final line feed.
pub open spec fn lines(s: Seq<char>) -> Seq<Seq<char>>
    decreases s.len(),
{
    if s.len() == 0 {
        seq![]
    } else {
        let k = newline_pos(s) as int;
        proof {
            lemma_newline_pos_bound(s);
        }
        if k >= s.len() {
            seq![s]
        } else {
            seq![strip_cr(s.take(k))] + lines(s.skip(k + 1))
        }
    }
}

/// A line of the script list names a script: it is not blank and does not
/// start with `#`.
pub open spec fn names_script(line: Seq<char>) -> bool {
    trim(line).len() > 0 && trim(line)[0] != '#'
}

/// The script names of the lines: each line that names a script, trimmed.
pub open spec fn script_names_of(ls: Seq<Seq<char>>) -> Seq<Seq<char>>
    decreases ls.len(),
{
    if ls.len() == 0 {
        seq![]
    } else {
        (if names_script(ls[0]) {
            seq![trim(ls[0])]
        } else {
            seq![]
        }) + script_names_of(ls.drop_first())
    }
}

proof fn lemma_script_names_of_cons(l: Seq<char>, rest: Seq<Seq<char>>)
    ensures
        script_names_of(seq![l] + rest) == (if names_script(l) {
            seq![trim(l)]
        } else {
            seq![]
        }) + script_names_of(rest),
{
    assert((seq![l] + rest).drop_first() =~= rest);
}

fn take_name(line: &str, names: &mut Vec<String>)
    ensures
        final(names)@.map_values(|s: String| s@) == old(names)@.map_values(|s: String| s@) + (if names_script(
            line@,
        ) {
            seq![trim(line@)]
        } else {
            seq![]
        }),
{
    let t = trim_str(line);
    if t.unicode_len() > 0 && t.get_char(0) != '#' {
        names.push(String::from_str(t));
    }
    assert(names@.map_values(|s: String| s@) =~= old(names)@.map_values(|s: String| s@) + (if names_script(
        line@,
    ) {
        seq![trim(line@)]
    } else {
        seq![]
    }));
}

/// The names of the scripts that a script list (`_scripts.txt`) lists: each
/// line, trimmed, that is neither blank nor a `#` comment.
pub fn script_names(scripts_txt: &str) -> (names: Vec<String>)
    ensures
        names@.map_values(|s: String| s@) == script_names_of(lines(scripts_txt@)),
{
    let ghost s = scripts_txt@;
    let n = scripts_txt.unicode_len();
    let mut names: Vec<String> = Vec::new();
    let mut start: usize = 0;
    let mut i: usize = 0;
    assert(s.skip(0) =~= s);
    while i < n
        invariant
            s == scripts_txt@,
            n == s.len(),
            start <= i <= n,
            forall|j: int| start <= j < i ==> s[j] != '\n',
            script_names_of(lines(s)) == names@.map_values(|x: String| x@) + script_names_of(
                lines(s.skip(start as int)),
            ),
        decreases n - i,
    {
        if scripts_txt.get_char(i) == '\n' {
            let ghost rest = s.skip(start as int);
            proof {
                lemma_newline_pos(rest, i - start);
                assert(rest.take(i - start) =~= s.subrange(start as int, i as int));
                assert(rest.skip(i - start + 1) =~= s.skip(i + 1));
                lemma_script_names_of_cons(
                    strip_cr(s.subrange(start as int, i as int)),
                    lines(s.skip(i + 1)),
                );
            }
            let mut end = i;
            if end > start && scripts_txt.get_char(end - 1) == '\r' {
                end = end - 1;
            }
            let line = scripts_txt.substring_char(start, end);
            assert(line@ =~= strip_cr(s.subrange(start as int, i as int)));
            take_name(line, &mut names);
            assert(script_names_of(lines(s)) =~= names@.map_values(|x: String| x@)
                + script_names_of(lines(s.skip(i + 1))));
            start = i + 1;
        }
        i = i + 1;
    }
    if start < n {
        let ghost rest = s.skip(start as int);
        proof {
            lemma_newline_pos(rest, n - start);
            assert(lines(rest) == seq![rest]);
            lemma_script_names_of_cons(rest, seq![]);
            assert(script_names_of(Seq::<Seq<char>>::empty()) == Seq::<Seq<char>>::empty());
        }
        let line = scripts_txt.substring_char(start, n);
        assert(line@ =~= rest);
        take_name(line, &mut names);
        assert(script_names_of(lines(s)) =~= names@.map_values(|x: String| x@));
    } else {
        assert(s.skip(start as int) =~= Seq::<char>::empty());
        assert(script_names_of(lines(s)) =~= names@.map_values(|x: String| x@));
    }
    names
}

/// Every script name is a whole name: not empty, not a `#` comment, and
/// without whitespace at either end.
pub proof fn lemma_script_names_clean(ls: Seq<Seq<char>>)
    ensures
        forall|k: int|
            0 <= k < script_names_of(ls).len() ==> {
                let name = #[trigger] script_names_of(ls)[k];
                &&& name.len() > 0
                &&& name[0] != '#'
                &&& !is_whitespace(name[0])
                &&& !is_whitespace(name.last())
            },
    decreases ls.len(),
{
    if ls.len() > 0 {
        lemma_script_names_clean(ls.drop_first());
        lemma_trim_ends(ls[0]);
        let head = if names_script(ls[0]) {
            seq![trim(ls[0])]
        } else {
            seq![]
        };
        let r = script_names_of(ls);
        assert forall|k: int| 0 <= k < r.len() implies {
            let name = #[trigger] r[k];
            &&& name.len() > 0
            &&& name[0] != '#'
            &&& !is_whitespace(name[0])
            &&& !is_whitespace(name.last())
        } by {
            if k < head.len() {
                assert(r[k] == trim(ls[0]));
            } else {
                assert(r[k] == script_names_of(ls.drop_first())[k - head.len()]);
            }
        }
    }
}

/// A line names a script exactly when its trimmed text is not empty and does
/// not start with `#`; a list of one line gives its trimmed text as a name,
/// or no name when it is blank or a comment.
pub proof fn lemma_names_script_exactly(l: Seq<char>)
    ensures
        names_script(l) <==> (trim(l).len() > 0 && trim(l)[0] != '#'),
        script_names_of(seq![l]) == (if trim(l).len() > 0 && trim(l)[0] != '#' {
            seq![trim(l)]
        } else {
            Seq::<Seq<char>>::empty()
        }),
{
    lemma_script_names_of_cons(l, Seq::<Seq<char>>::empty());
    assert(seq![l] + Seq::<Seq<char>>::empty() =~= seq![l]);
}

/// The names of two lists of lines one after the other are the names of the
/// first followed by those of the second: each line is judged on its own.
pub proof fn lemma_script_names_concat(a: Seq<Seq<char>>, b: Seq<Seq<char>>)
    ensures
        script_names_of(a + b) == script_names_of(a) + script_names_of(b),
    decreases a.len(),
{
    if a.len() == 0 {
        assert(a + b =~= b);
        assert(script_names_of(a) + script_names_of(b) =~= script_names_of(b));
    } else {
        lemma_script_names_concat(a.drop_first(), b);
        assert((a + b).drop_first() =~= a.drop_first() + b);
        assert(script_names_of(a + b) =~= script_names_of(a) + script_names_of(b));
    }
}

/// How a text splits into lines: a text without a line feed is one line (or
/// none when empty); a line feed ends the line before it, without a carriage
/// return right before the feed, and the lines of the rest follow.
pub proof fn lemma_lines_exactly(a: Seq<char>, rest: Seq<char>)
    requires
        forall|k: int| 0 <= k < a.len() ==> #[trigger] a[k] != '\n',
    ensures
        lines(Seq::<char>::empty()) == Seq::<Seq<char>>::empty(),
        a.len() > 0 ==> lines(a) == seq![a],
        lines(a + seq!['\n'] + rest) == seq![
            if a.len() > 0 && a.last() == '\r' {
                a.drop_last()
            } else {
                a
            },
        ] + lines(rest),
{
    let s = a + seq!['\n'] + rest;
    lemma_newline_pos(s, a.len() as int);
    assert(s.take(a.len() as int) =~= a);
    assert(s.skip(a.len() as int + 1) =~= rest);
    if a.len() > 0 {
        lemma_newline_pos(a, a.len() as int);
    }
}

/// The string that a literal of a script gives: its text, at the script's
/// context and the literal's start offset.
pub open spec fn literal_view(context: Seq<char>, start_offset: nat, text: Seq<char>) -> GameStringView {
    GameStringView { location: context + ":"@ + decimal(start_offset), text }
}

/// The string of a literal is its text, at the script's context, a colon,
/// and the literal's start offset in decimal.
pub proof fn lemma_literal_view_exactly(context: Seq<char>, start_offset: nat, text: Seq<char>)
    ensures
        literal_view(context, start_offset, text) == (GameStringView {
            location: context + seq![':'] + decimal(start_offset),
            text,
        }),
{
    reveal_strlit(":");
    assert(":"@ =~= seq![':']);
}

/// The string of a literal that starts at `start_offset` of a script.
pub fn script_literal_string(context: &str, start_offset: usize, text: String) -> (g: GameString)
    ensures
        g@ == literal_view(context@, start_offset as nat, text@),
{
    let mut location = String::from_str(context);
    location.append(":");
    push_decimal(&mut location, start_offset as u64);
    GameString { location, text }
}

/// The source of an interpolated literal without its opening and closing delimiter.
pub fn interpolated_content(literal: &[u8]) -> (content: Vec<u8>)
    requires
        literal@.len() >= 2,
    ensures
        content@ == literal@.subrange(1, literal@.len() - 1),
{
    let n = literal.len();
    let mut content: Vec<u8> = Vec::new();
    let mut i: usize = 1;
    while i < n - 1
        invariant
            n == literal@.len(),
            n >= 2,
            1 <= i <= n - 1,
            content@ == literal@.subrange(1, i as int),
        decreases n - i,
    {
        content.push(literal[i]);
        assert(literal@.subrange(1, i + 1) =~= literal@.subrange(1, i as int).push(literal@[i as int]));
        i = i + 1;
    }
    content
}

} // verus!
