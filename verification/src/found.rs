//! What extraction finds: the game's strings, each with its location, and
//! script sources, which are searched for string literals afterwards.

use vstd::prelude::*;

use crate::text::{has_visible_text, text_is_visible};

verus! {

/// A string of the game, and where in the game data it stands.
pub struct GameString {
    pub location: String,
    pub text: String,
}

/// The value of a `GameString`.
pub struct GameStringView {
    pub location: Seq<char>,
    pub text: Seq<char>,
}

impl View for GameString {
    type V = GameStringView;

    open spec fn view(&self) -> GameStringView {
        GameStringView { location: self.location@, text: self.text@ }
    }
}

/// An item that extraction finds: a string as it stands, or the source of a
/// Ruby script whose string literals are the strings (its location is the
/// context that those literals' locations start with).
pub enum Extracted {
    Text(GameString),
    Script(GameString),
}

/// The value of an `Extracted`.
pub enum ExtractedView {
    Text(GameStringView),
    Script(GameStringView),
}

impl View for Extracted {
    type V = ExtractedView;

    open spec fn view(&self) -> ExtractedView {
        match self {
            Extracted::Text(s) => ExtractedView::Text(s@),
            Extracted::Script(s) => ExtractedView::Script(s@),
        }
    }
}

/// The values of a list of found items.
pub open spec fn views(s: Seq<Extracted>) -> Seq<ExtractedView> {
    s.map_values(|e: Extracted| e@)
}

/// The values of a list of game strings.
pub open spec fn string_views(s: Seq<GameString>) -> Seq<GameStringView> {
    s.map_values(|g: GameString| g@)
}

/// A found string.
pub open spec fn text_item(location: Seq<char>, text: Seq<char>) -> ExtractedView {
    ExtractedView::Text(GameStringView { location, text })
}

/// A found script.
pub open spec fn script_item(context: Seq<char>, text: Seq<char>) -> ExtractedView {
    ExtractedView::Script(GameStringView { location: context, text })
}

/// Where a found item stands: the location of a string, the context of a script.
pub open spec fn location_of(e: ExtractedView) -> Seq<char> {
    match e {
        ExtractedView::Text(g) => g.location,
        ExtractedView::Script(g) => g.location,
    }
}

/// The text of a found item: a string's text, a script's source.
pub open spec fn text_of(e: ExtractedView) -> Seq<char> {
    match e {
        ExtractedView::Text(g) => g.text,
        ExtractedView::Script(g) => g.text,
    }
}

/// The text starts with `p`.
pub open spec fn starts_with(s: Seq<char>, p: Seq<char>) -> bool {
    p.len() <= s.len() && s.take(p.len() as int) == p
}

/// The location of every item starts with `p`.
pub open spec fn all_located_under(items: Seq<ExtractedView>, p: Seq<char>) -> bool {
    forall|k: int| 0 <= k < items.len() ==> starts_with(location_of(#[trigger] items[k]), p)
}

pub proof fn lemma_starts_with_append(p: Seq<char>, x: Seq<char>)
    ensures
        starts_with(p + x, p),
{
    assert((p + x).take(p.len() as int) =~= p);
}

pub proof fn lemma_starts_with_trans(s: Seq<char>, q: Seq<char>, p: Seq<char>)
    requires
        starts_with(s, q),
        starts_with(q, p),
    ensures
        starts_with(s, p),
{
    assert(s.take(p.len() as int) =~= q.take(p.len() as int));
}

pub proof fn lemma_located_concat(a: Seq<ExtractedView>, b: Seq<ExtractedView>, p: Seq<char>)
    requires
        all_located_under(a, p),
        all_located_under(b, p),
    ensures
        all_located_under(a + b, p),
{
    assert forall|k: int| 0 <= k < (a + b).len() implies starts_with(
        location_of(#[trigger] (a + b)[k]),
        p,
    ) by {
        if k < a.len() {
            assert((a + b)[k] == a[k]);
        } else {
            assert((a + b)[k] == b[k - a.len()]);
        }
    }
}

pub proof fn lemma_located_concat_map<T>(
    s: Seq<T>,
    f: spec_fn(int, T) -> Seq<ExtractedView>,
    p: Seq<char>,
)
    requires
        forall|i: int| 0 <= i < s.len() ==> all_located_under(#[trigger] f(i, s[i]), p),
    ensures
        all_located_under(concat_map(s, f), p),
    decreases s.len(),
{
    if s.len() > 0 {
        let q = s.drop_last();
        assert forall|i: int| 0 <= i < q.len() implies all_located_under(#[trigger] f(i, q[i]), p) by {
            assert(q[i] == s[i]);
        }
        lemma_located_concat_map(q, f, p);
        assert(all_located_under(f(s.len() - 1, s[s.len() - 1]), p));
        lemma_located_concat(concat_map(q, f), f(s.len() - 1, s.last()), p);
    }
}

/// The item with `p` put in front of its location.
pub open spec fn with_prefix(p: Seq<char>, e: ExtractedView) -> ExtractedView {
    match e {
        ExtractedView::Text(g) => ExtractedView::Text(
            GameStringView { location: p + g.location, text: g.text },
        ),
        ExtractedView::Script(g) => ExtractedView::Script(
            GameStringView { location: p + g.location, text: g.text },
        ),
    }
}

/// The items with `p` put in front of each location.
pub open spec fn prefix_all(p: Seq<char>, items: Seq<ExtractedView>) -> Seq<ExtractedView> {
    items.map_values(|e: ExtractedView| with_prefix(p, e))
}

pub proof fn lemma_prefix_all_concat(p: Seq<char>, a: Seq<ExtractedView>, b: Seq<ExtractedView>)
    ensures
        prefix_all(p, a + b) == prefix_all(p, a) + prefix_all(p, b),
{
    assert(prefix_all(p, a + b) =~= prefix_all(p, a) + prefix_all(p, b));
}

pub proof fn lemma_concat_map_prefix<T>(
    s: Seq<T>,
    f: spec_fn(int, T) -> Seq<ExtractedView>,
    g: spec_fn(int, T) -> Seq<ExtractedView>,
    p: Seq<char>,
)
    requires
        forall|i: int| 0 <= i < s.len() ==> #[trigger] g(i, s[i]) == prefix_all(p, f(i, s[i])),
    ensures
        concat_map(s, g) == prefix_all(p, concat_map(s, f)),
    decreases s.len(),
{
    if s.len() == 0 {
        assert(prefix_all(p, Seq::<ExtractedView>::empty()) =~= Seq::<ExtractedView>::empty());
    } else {
        let q = s.drop_last();
        assert forall|i: int| 0 <= i < q.len() implies #[trigger] g(i, q[i]) == prefix_all(
            p,
            f(i, q[i]),
        ) by {
            assert(q[i] == s[i]);
        }
        lemma_concat_map_prefix(q, f, g, p);
        assert(g(s.len() - 1, s[s.len() - 1]) == prefix_all(p, f(s.len() - 1, s[s.len() - 1])));
        lemma_prefix_all_concat(p, concat_map(q, f), f(s.len() - 1, s.last()));
    }
}

pub proof fn lemma_kept_prefix(text: Seq<char>, p: Seq<char>, location: Seq<char>)
    ensures
        kept(text, p + location) == prefix_all(p, kept(text, location)),
{
    assert(kept(text, p + location) =~= prefix_all(p, kept(text, location)));
}

/// What `add_string` adds: the string, unless it is only whitespace.
pub open spec fn kept(text: Seq<char>, location: Seq<char>) -> Seq<ExtractedView> {
    if has_visible_text(text) {
        seq![text_item(location, text)]
    } else {
        seq![]
    }
}

/// The concatenation of `f(i, s[i])` over the list, in order.
pub open spec fn concat_map<T>(s: Seq<T>, f: spec_fn(int, T) -> Seq<ExtractedView>) -> Seq<
    ExtractedView,
>
    decreases s.len(),
{
    if s.len() == 0 {
        seq![]
    } else {
        concat_map(s.drop_last(), f) + f(s.len() - 1, s.last())
    }
}

pub proof fn lemma_concat_map_take<T>(
    s: Seq<T>,
    i: int,
    f: spec_fn(int, T) -> Seq<ExtractedView>,
)
    requires
        0 <= i < s.len(),
    ensures
        concat_map(s.take(i + 1), f) == concat_map(s.take(i), f) + f(i, s[i]),
{
    assert(s.take(i + 1).drop_last() =~= s.take(i));
}

/// When each element gives one item, the items of the whole list are those
/// items in order.
pub proof fn lemma_concat_map_items<T>(s: Seq<T>, f: spec_fn(int, T) -> Seq<ExtractedView>)
    requires
        forall|i: int| 0 <= i < s.len() ==> (#[trigger] f(i, s[i])).len() == 1,
    ensures
        concat_map(s, f).len() == s.len(),
        forall|i: int| 0 <= i < s.len() ==> #[trigger] concat_map(s, f)[i] == f(i, s[i])[0],
    decreases s.len(),
{
    if s.len() > 0 {
        let q = s.drop_last();
        assert forall|i: int| 0 <= i < q.len() implies (#[trigger] f(i, q[i])).len() == 1 by {
            assert(q[i] == s[i]);
        }
        lemma_concat_map_items(q, f);
        assert(f(s.len() - 1, s[s.len() - 1]).len() == 1);
        assert forall|i: int| 0 <= i < s.len() implies #[trigger] concat_map(s, f)[i] == f(i, s[i])[0] by {
            if i < q.len() {
                assert(q[i] == s[i]);
            }
        }
    }
}

pub proof fn lemma_views_push(s: Seq<Extracted>, x: Extracted)
    ensures
        views(s.push(x)) == views(s) + seq![x@],
{
    assert(views(s.push(x)) =~= views(s) + seq![x@]);
}

/// `add_string` adds one string, with its location and its text, exactly
/// when the text has a character that is not whitespace, and nothing else.
pub proof fn lemma_kept_exactly(text: Seq<char>, location: Seq<char>)
    ensures
        has_visible_text(text) ==> kept(text, location) == seq![
            ExtractedView::Text(GameStringView { location, text }),
        ],
        !has_visible_text(text) ==> kept(text, location) == Seq::<ExtractedView>::empty(),
{
}

/// Appends a found string.
pub fn push_text(strings: &mut Vec<Extracted>, location: String, text: String)
    ensures
        views(final(strings)@) == views(old(strings)@) + seq![text_item(location@, text@)],
{
    let ghost before = strings@;
    strings.push(Extracted::Text(GameString { location, text }));
    proof {
        lemma_views_push(before, strings@.last());
    }
}

/// Adds the string, unless it holds nothing but whitespace.
pub fn add_string(strings: &mut Vec<Extracted>, text: String, location: String)
    ensures
        views(final(strings)@) == views(old(strings)@) + kept(text@, location@),
{
    if text_is_visible(text.as_str()) {
        push_text(strings, location, text);
    } else {
        assert(views(strings@) =~= views(strings@) + kept(text@, location@));
    }
}

/// Hands a script's source on, under the context that the locations of its
/// strings start with.
pub fn process_script_text(text: String, strings: &mut Vec<Extracted>, context: String)
    ensures
        views(final(strings)@) == views(old(strings)@) + seq![script_item(context@, text@)],
{
    let ghost before = strings@;
    strings.push(Extracted::Script(GameString { location: context, text }));
    proof {
        lemma_views_push(before, strings@.last());
    }
}

} // verus!
