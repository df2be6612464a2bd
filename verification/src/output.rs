//! What extraction writes out: a gettext catalogue, in which no text may
//! stand as a message id twice, and the plain list of strings.

use vstd::prelude::*;

use crate::found::{string_views, views, Extracted, ExtractedView, GameString, GameStringView};

verus! {

/// One gettext entry: a reference comment with the location, the text as the
/// message id, an empty `msgstr`, and a blank line.
pub open spec fn gettext_entry(g: GameStringView) -> Seq<char> {
    "#: "@ + g.location + "\nmsgid \""@ + g.text + "\"\nmsgstr \"\"\n\n"@
}

/// The gettext catalogue of the strings: their entries, in order.
pub open spec fn gettext_spec(s: Seq<GameStringView>) -> Seq<char>
    decreases s.len(),
{
    if s.len() == 0 {
        seq![]
    } else {
        gettext_spec(s.drop_last()) + gettext_entry(s.last())
    }
}

/// The gettext catalogue of the strings.
pub fn gettext_document(strings: &Vec<GameString>) -> (r: String)
    ensures
        r@ == gettext_spec(string_views(strings@)),
{
    let mut r = String::new();
    let n = strings.len();
    let mut i: usize = 0;
    while i < n
        invariant
            n == strings@.len(),
            i <= n,
            r@ == gettext_spec(string_views(strings@.take(i as int))),
        decreases n - i,
    {
        let g = &strings[i];
        let ghost before = r@;
        r.append("#: ");
        r.append(g.location.as_str());
        r.append("\nmsgid \"");
        r.append(g.text.as_str());
        r.append("\"\nmsgstr \"\"\n\n");
        proof {
            let s = string_views(strings@.take(i + 1));
            assert(s.drop_last() =~= string_views(strings@.take(i as int)));
            assert(s.last() == strings@[i as int]@);
            assert(r@ =~= before + gettext_entry(strings@[i as int]@));
        }
        i = i + 1;
    }
    assert(strings@.take(n as int) =~= strings@);
    r
}

/// The catalogue of no strings is empty, and each string adds, after the
/// entries before it, `#: {location}`, `msgid "{text}"`, `msgstr ""` and a
/// blank line.
pub proof fn lemma_gettext_each(s: Seq<GameStringView>, g: GameStringView)
    ensures
        gettext_spec(Seq::<GameStringView>::empty()) == Seq::<char>::empty(),
        gettext_spec(s.push(g)) == gettext_spec(s) + "#: "@ + g.location + "\nmsgid \""@ + g.text
            + "\"\nmsgstr \"\"\n\n"@,
{
    assert(s.push(g).drop_last() =~= s);
    assert(gettext_spec(s.push(g)) =~= gettext_spec(s) + "#: "@ + g.location + "\nmsgid \""@
        + g.text + "\"\nmsgstr \"\"\n\n"@);
}

/// The catalogue of a list made of two lists is the catalogue of the first
/// followed by that of the second.
pub proof fn lemma_gettext_concat(a: Seq<GameStringView>, b: Seq<GameStringView>)
    ensures
        gettext_spec(a + b) == gettext_spec(a) + gettext_spec(b),
    decreases b.len(),
{
    if b.len() == 0 {
        assert(a + b =~= a);
        assert(gettext_spec(a) + gettext_spec(b) =~= gettext_spec(a));
    } else {
        lemma_gettext_concat(a, b.drop_last());
        assert((a + b).drop_last() =~= a + b.drop_last());
        assert((a + b).last() == b.last());
        assert(gettext_spec(a + b) =~= gettext_spec(a) + gettext_spec(b));
    }
}

/// Some string of the list has the text.
pub open spec fn has_text(s: Seq<GameStringView>, t: Seq<char>) -> bool {
    exists|k: int| 0 <= k < s.len() && #[trigger] s[k].text == t
}

/// The strings without each string whose text an earlier string already
/// has: the first string of each text is kept, and the order is kept.
pub open spec fn dedup_by_text(s: Seq<GameStringView>) -> Seq<GameStringView>
    decreases s.len(),
{
    if s.len() == 0 {
        s
    } else {
        let d = dedup_by_text(s.drop_last());
        if has_text(s.drop_last(), s.last().text) {
            d
        } else {
            d.push(s.last())
        }
    }
}

/// No two strings of the list have the same text.
pub open spec fn texts_unique(s: Seq<GameStringView>) -> bool {
    forall|i: int, j: int| 0 <= i < j < s.len() ==> #[trigger] s[i].text != #[trigger] s[j].text
}

/// Removing repeats keeps exactly the texts that the list has.
pub proof fn lemma_dedup_same_texts(s: Seq<GameStringView>)
    ensures
        forall|t: Seq<char>| has_text(dedup_by_text(s), t) == has_text(s, t),
    decreases s.len(),
{
    if s.len() > 0 {
        let p = s.drop_last();
        let x = s.last();
        lemma_dedup_same_texts(p);
        let d = dedup_by_text(p);
        let r = dedup_by_text(s);
        assert forall|t: Seq<char>| has_text(r, t) == has_text(s, t) by {
            if has_text(s, t) {
                let k = choose|k: int| 0 <= k < s.len() && #[trigger] s[k].text == t;
                if k < p.len() {
                    assert(p[k].text == t);
                    assert(has_text(p, t));
                    let j = choose|j: int| 0 <= j < d.len() && #[trigger] d[j].text == t;
                    if !has_text(p, x.text) {
                        assert(r[j] == d[j]);
                    }
                    assert(r[j].text == t);
                } else if has_text(p, x.text) {
                    assert(has_text(d, x.text));
                    let j = choose|j: int| 0 <= j < d.len() && #[trigger] d[j].text == x.text;
                    assert(r[j].text == t);
                } else {
                    assert(r[d.len() as int].text == t);
                }
            }
            if has_text(r, t) {
                let j = choose|j: int| 0 <= j < r.len() && #[trigger] r[j].text == t;
                if j < d.len() {
                    assert(r[j] == d[j]);
                    assert(has_text(d, t));
                    assert(has_text(p, t));
                    let k = choose|k: int| 0 <= k < p.len() && #[trigger] p[k].text == t;
                    assert(s[k] == p[k]);
                    assert(s[k].text == t);
                } else {
                    assert(s[s.len() - 1].text == t);
                }
            }
        }
    }
}

/// After removing repeats, no two strings have the same text.
pub proof fn lemma_dedup_texts_unique(s: Seq<GameStringView>)
    ensures
        texts_unique(dedup_by_text(s)),
    decreases s.len(),
{
    if s.len() > 0 {
        let p = s.drop_last();
        let x = s.last();
        lemma_dedup_texts_unique(p);
        lemma_dedup_same_texts(p);
        let d = dedup_by_text(p);
        if !has_text(p, x.text) {
            let r = d.push(x);
            assert(!has_text(d, x.text));
            assert forall|i: int, j: int| 0 <= i < j < r.len() implies #[trigger] r[i].text
                != #[trigger] r[j].text by {
                if j < d.len() {
                    assert(r[i] == d[i] && r[j] == d[j]);
                } else {
                    assert(r[i] == d[i]);
                    if d[i].text == x.text {
                        assert(has_text(d, x.text));
                    }
                }
            }
        }
    }
}

/// Removing repeats from strings whose texts are all different changes nothing.
pub proof fn lemma_dedup_keeps_unique(s: Seq<GameStringView>)
    requires
        texts_unique(s),
    ensures
        dedup_by_text(s) == s,
    decreases s.len(),
{
    if s.len() > 0 {
        let p = s.drop_last();
        assert(texts_unique(p)) by {
            assert forall|i: int, j: int| 0 <= i < j < p.len() implies #[trigger] p[i].text
                != #[trigger] p[j].text by {
                assert(s[i].text != s[j].text);
            }
        }
        lemma_dedup_keeps_unique(p);
        assert(!has_text(p, s.last().text)) by {
            if has_text(p, s.last().text) {
                let k = choose|k: int| 0 <= k < p.len() && #[trigger] p[k].text == s.last().text;
                assert(s[k].text == s[s.len() - 1].text);
            }
        }
        assert(p.push(s.last()) =~= s);
    }
}

/// Removing repeats a second time changes nothing.
pub proof fn lemma_dedup_idempotent(s: Seq<GameStringView>)
    ensures
        dedup_by_text(dedup_by_text(s)) == dedup_by_text(s),
{
    lemma_dedup_texts_unique(s);
    lemma_dedup_keeps_unique(dedup_by_text(s));
}

/// Each string kept is the first string of the list with its text, and the
/// kept strings stand in the order of the list.
pub proof fn lemma_dedup_keeps_first(s: Seq<GameStringView>)
    ensures
        forall|j: int|
            0 <= j < dedup_by_text(s).len() ==> exists|i: int|
                0 <= i < s.len() && #[trigger] dedup_by_text(s)[j] == s[i] && !has_text(
                    s.take(i),
                    s[i].text,
                ),
        forall|j1: int, j2: int, i1: int, i2: int|
            0 <= j1 < j2 < dedup_by_text(s).len() && 0 <= i1 < s.len() && 0 <= i2 < s.len()
                && #[trigger] dedup_by_text(s)[j1] == #[trigger] s[i1] && #[trigger] dedup_by_text(s)[j2]
                == #[trigger] s[i2] && !has_text(s.take(i1), s[i1].text) && !has_text(
                s.take(i2),
                s[i2].text,
            ) ==> i1 < i2,
    decreases s.len(),
{
    if s.len() > 0 {
        let p = s.drop_last();
        let x = s.last();
        lemma_dedup_keeps_first(p);
        lemma_dedup_same_texts(p);
        lemma_dedup_texts_unique(s);
        let d = dedup_by_text(p);
        let r = dedup_by_text(s);
        assert forall|i: int| 0 <= i < p.len() implies #[trigger] s.take(i) == p.take(i) by {
            assert(s.take(i) =~= p.take(i));
        }
        assert forall|j: int| 0 <= j < r.len() implies exists|i: int|
            0 <= i < s.len() && #[trigger] r[j] == s[i] && !has_text(s.take(i), s[i].text) by {
            if j < d.len() {
                assert(r[j] == d[j]);
                let i = choose|i: int|
                    0 <= i < p.len() && #[trigger] d[j] == p[i] && !has_text(p.take(i), p[i].text);
                assert(s.take(i) == p.take(i));
                assert(r[j] == s[i]);
            } else {
                let i = s.len() - 1;
                assert(s.take(i) =~= p);
                assert(r[j] == s[i]);
            }
        }
        assert forall|j1: int, j2: int, i1: int, i2: int|
            0 <= j1 < j2 < r.len() && 0 <= i1 < s.len() && 0 <= i2 < s.len() && #[trigger] r[j1]
                == #[trigger] s[i1] && #[trigger] r[j2] == #[trigger] s[i2] && !has_text(
                s.take(i1),
                s[i1].text,
            ) && !has_text(s.take(i2), s[i2].text) implies i1 < i2 by {
            if i2 <= i1 {
                if i2 == i1 {
                    assert(r[j1].text == r[j2].text);
                } else {
                    assert(s.take(i1)[i2] == s[i2]);
                    assert(has_text(s.take(i1), s[i1].text)) by {
                        assert(r[j1].text != r[j2].text);
                    }
                }
            }
        }
    }
}

/// Whether some string of the list has the text.
fn contains_text(strings: &Vec<GameString>, t: &String) -> (b: bool)
    ensures
        b == has_text(string_views(strings@), t@),
{
    let n = strings.len();
    let mut k: usize = 0;
    while k < n
        invariant
            n == strings@.len(),
            k <= n,
            forall|j: int| 0 <= j < k ==> strings@[j].text@ != t@,
        decreases n - k,
    {
        if strings[k].text == *t {
            assert(string_views(strings@)[k as int].text == t@);
            return true;
        }
        k = k + 1;
    }
    assert(!has_text(string_views(strings@), t@)) by {
        if has_text(string_views(strings@), t@) {
            let j = choose|j: int|
                0 <= j < n && #[trigger] string_views(strings@)[j].text == t@;
            assert(strings@[j].text@ == t@);
        }
    }
    false
}

/// Drops each string whose text an earlier string already has.
pub fn dedup_strings(strings: &mut Vec<GameString>)
    ensures
        string_views(final(strings)@) == dedup_by_text(string_views(old(strings)@)),
{
    let mut all: Vec<GameString> = Vec::new();
    std::mem::swap(&mut all, strings);
    let ghost input = all@;
    let n = all.len();
    let mut i: usize = 0;
    for g in it: all.into_iter()
        invariant
            it.seq() == input,
            n == input.len(),
            i == it.index(),
            string_views(strings@) == dedup_by_text(string_views(input.take(i as int))),
    {
        let ghost before = string_views(strings@);
        proof {
            let s = string_views(input.take(i + 1));
            assert(s.drop_last() =~= string_views(input.take(i as int)));
            assert(s.last() == g@);
            lemma_dedup_same_texts(string_views(input.take(i as int)));
        }
        if !contains_text(strings, &g.text) {
            strings.push(g);
            assert(string_views(strings@) =~= before.push(g@));
        }
        i = i + 1;
    }
    assert(input.take(n as int) =~= input);
}

/// The gettext catalogue that extraction writes: the strings without those
/// whose text an earlier string already has (so that no message id comes
/// twice), then their entries.
pub fn gettext_catalogue(strings: Vec<GameString>) -> (r: String)
    ensures
        r@ == gettext_spec(dedup_by_text(string_views(strings@))),
{
    let mut strings = strings;
    dedup_strings(&mut strings);
    gettext_document(&strings)
}

/// The strings as they stand when scripts are not searched for string
/// literals: each script comes out whole, under its context.
pub open spec fn plain_view(e: ExtractedView) -> GameStringView {
    match e {
        ExtractedView::Text(g) => g,
        ExtractedView::Script(g) => g,
    }
}

/// Without searching scripts, a found string stands as it is and a script
/// stands whole, under its context.
pub proof fn lemma_plain_view_exactly(g: GameStringView)
    ensures
        plain_view(ExtractedView::Text(g)) == g,
        plain_view(ExtractedView::Script(g)) == g,
{
}

/// Turns what extraction found into the list of strings, each script whole
/// under its context.
pub fn plain_script_strings(found: Vec<Extracted>) -> (r: Vec<GameString>)
    ensures
        string_views(r@) == views(found@).map_values(|e: ExtractedView| plain_view(e)),
{
    let ghost input = found@;
    let mut r: Vec<GameString> = Vec::new();
    for e in it: found.into_iter()
        invariant
            it.seq() == input,
            r@.len() == it.index(),
            forall|k: int| 0 <= k < it.index() ==> #[trigger] r@[k]@ == plain_view(input[k]@),
    {
        let g = match e {
            Extracted::Text(g) => g,
            Extracted::Script(g) => g,
        };
        r.push(g);
    }
    assert(string_views(r@) =~= views(input).map_values(|e: ExtractedView| plain_view(e)));
    r
}

} // verus!
