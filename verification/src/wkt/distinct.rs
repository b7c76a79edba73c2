//! Well-known text can be read back: geometries that are written alike are
//! alike.
//!
//! The texts are unambiguous because of how they are delimited. An ordinate
//! holds none of the characters that delimit (space, comma, parentheses), so
//! it ends where the next delimiter stands; a list ends at the parenthesis
//! that closes it; and so a text can be taken apart in one way only.

use vstd::prelude::*;
use crate::wkt::geometry::{
    Coord, Dimensions, Geometry, GeometryCollection, LineString, MultiLineString, MultiPoint,
    MultiPolygon, Point, Polygon,
};
use crate::wkt::scalar::{
    coord_text, coord_texts, coords_text, dimension_text, geometry_text, geometry_texts, joined, line_texts, linestring_text,
    multi_linestring_text, multi_point_text, multi_polygon_text, ordinate_texts, parenthesized,
    point_text, point_texts, polygon_text, polygon_texts, ring_texts, rings_text,
};

verus! {

/// Whether a character delimits: a space, a comma or a parenthesis.
pub open spec fn is_delimiter(c: char) -> bool {
    c == ' ' || c == ',' || c == '(' || c == ')'
}

/// Whether a text can stand for an ordinate: it is not empty and holds no
/// delimiter.
pub open spec fn is_word(w: Seq<char>) -> bool {
    w.len() > 0 && forall|i: int| 0 <= i < w.len() ==> !is_delimiter(#[trigger] w[i])
}

/// Whether every text of a list can stand for an ordinate.
pub open spec fn are_words(words: Seq<Seq<char>>) -> bool {
    forall|i: int| 0 <= i < words.len() ==> is_word(#[trigger] words[i])
}

/// The one-character texts that the writers use.
pub proof fn lemma_delimiters()
    ensures
        " "@ == seq![' '],
        ","@ == seq![','],
        "("@ == seq!['('],
        ")"@ == seq![')'],
{
    reveal_strlit(" ");
    reveal_strlit(",");
    reveal_strlit("(");
    reveal_strlit(")");
    assert(" "@ =~= seq![' ']);
    assert(","@ =~= seq![',']);
    assert("("@ =~= seq!['(']);
    assert(")"@ =~= seq![')']);
}

/// Texts that are equal after the same text are equal.
pub proof fn lemma_cancel_front(a: Seq<char>, s: Seq<char>, t: Seq<char>)
    requires
        a + s == a + t,
    ensures
        s == t,
{
    let x = a + s;
    let y = a + t;
    assert(x.len() == a.len() + s.len());
    assert(y.len() == a.len() + t.len());
    assert forall|i: int| 0 <= i < s.len() implies s[i] == t[i] by {
        assert(x[a.len() + i] == s[i]);
        assert(y[a.len() + i] == t[i]);
    }
    assert(s =~= t);
}

/// An ordinate ends at the next delimiter: two ordinates, each followed by
/// the end of the text or by a delimiter, that give the same text are the
/// same, and so is what follows them.
pub proof fn lemma_word_ends(w1: Seq<char>, s: Seq<char>, w2: Seq<char>, t: Seq<char>)
    requires
        is_word(w1),
        is_word(w2),
        w1 + s == w2 + t,
        s.len() == 0 || is_delimiter(s[0]),
        t.len() == 0 || is_delimiter(t[0]),
    ensures
        w1 == w2,
        s == t,
{
    let x = w1 + s;
    let y = w2 + t;
    assert(x.len() == w1.len() + s.len());
    assert(y.len() == w2.len() + t.len());
    if w1.len() < w2.len() {
        assert(x[w1.len() as int] == s[0]);
        assert(y[w1.len() as int] == w2[w1.len() as int]);
        assert(false);
    }
    if w2.len() < w1.len() {
        assert(y[w2.len() as int] == t[0]);
        assert(x[w2.len() as int] == w1[w2.len() as int]);
        assert(false);
    }
    assert forall|i: int| 0 <= i < w1.len() implies w1[i] == w2[i] by {
        assert(x[i] == w1[i]);
        assert(y[i] == w2[i]);
    }
    assert(w1 =~= w2);
    lemma_cancel_front(w1, s, t);
}

/// A joined list begins with its first item; the rest, if there is any,
/// follows after the separator.
pub proof fn lemma_joined_front(items: Seq<Seq<char>>, sep: Seq<char>)
    requires
        items.len() > 0,
    ensures
        joined(items, sep) == (if items.len() == 1 {
            items[0]
        } else {
            items[0] + sep + joined(items.subrange(1, items.len() as int), sep)
        }),
    decreases items.len(),
{
    if items.len() == 1 {
    } else if items.len() == 2 {
        let rest = items.subrange(1, 2);
        assert(items.drop_last().len() == 1);
        assert(joined(items.drop_last(), sep) == items[0]);
        assert(rest.len() == 1 && rest[0] == items[1]);
        assert(joined(rest, sep) == items[1]);
    } else {
        let rest = items.subrange(1, items.len() as int);
        lemma_joined_front(items.drop_last(), sep);
        let inner = items.drop_last().subrange(1, items.len() - 1);
        assert(inner =~= rest.drop_last());
        assert(rest.last() == items.last());
        assert(joined(rest, sep) == joined(inner, sep) + sep + items.last());
        assert(items.drop_last()[0] == items[0]);
        assert(joined(items, sep) =~= items[0] + sep + joined(rest, sep));
    }
}

/// A joined list can be taken apart in one way only, where each item ends
/// at the separator or at a character that stops the list.
///
/// The items of the one list are texts of `left`, those of the other texts
/// of `right`. Of a text of `left` and a text of `right` it is given that,
/// each followed by a text that begins with the separator or with a stopping
/// character, they give the same text only if they and what follows them
/// are the same. Then the two lists, each followed by a text that begins
/// with a stopping character, give the same text only if the lists and what
/// follows them are the same.
pub proof fn lemma_joined_ends(
    a: Seq<Seq<char>>,
    s: Seq<char>,
    b: Seq<Seq<char>>,
    t: Seq<char>,
    sep: char,
    left: spec_fn(Seq<char>) -> bool,
    right: spec_fn(Seq<char>) -> bool,
    stop: spec_fn(char) -> bool,
)
    requires
        a.len() > 0,
        b.len() > 0,
        forall|i: int| 0 <= i < a.len() ==> left(#[trigger] a[i]),
        forall|i: int| 0 <= i < b.len() ==> right(#[trigger] b[i]),
        !stop(sep),
        forall|x: Seq<char>, u: Seq<char>, y: Seq<char>, v: Seq<char>|
            left(x) && right(y) && #[trigger] (x + u) == #[trigger] (y + v) && u.len() > 0
                && v.len() > 0 && (u[0] == sep || stop(u[0])) && (v[0] == sep || stop(v[0])) ==> x
                == y && u == v,
        joined(a, seq![sep]) + s == joined(b, seq![sep]) + t,
        s.len() > 0 && stop(s[0]),
        t.len() > 0 && stop(t[0]),
    ensures
        a == b,
        s == t,
    decreases a.len(),
{
    let sp = seq![sep];
    lemma_joined_front(a, sp);
    lemma_joined_front(b, sp);
    let ra = a.subrange(1, a.len() as int);
    let rb = b.subrange(1, b.len() as int);
    let u = if a.len() == 1 {
        s
    } else {
        sp + joined(ra, sp) + s
    };
    let v = if b.len() == 1 {
        t
    } else {
        sp + joined(rb, sp) + t
    };
    assert(joined(a, sp) + s =~= a[0] + u);
    assert(joined(b, sp) + t =~= b[0] + v);
    assert(u.len() > 0 && (u[0] == sep || stop(u[0])));
    assert(v.len() > 0 && (v[0] == sep || stop(v[0])));
    assert(a[0] + u == b[0] + v);
    assert(a[0] == b[0] && u == v);
    if a.len() == 1 {
        if b.len() > 1 {
            assert(v[0] == sep);
            assert(false);
        }
        assert(a =~= b);
    } else {
        if b.len() == 1 {
            assert(u[0] == sep);
            assert(false);
        }
        assert(u =~= sp + (joined(ra, sp) + s));
        assert(v =~= sp + (joined(rb, sp) + t));
        lemma_cancel_front(sp, joined(ra, sp) + s, joined(rb, sp) + t);
        lemma_joined_ends(ra, s, rb, t, sep, left, right, stop);
        assert(a =~= seq![a[0]] + ra);
        assert(b =~= seq![b[0]] + rb);
    }
}

/// Whether a character ends an item of a list: the comma before the next
/// item, or the parenthesis that closes the list.
pub open spec fn closes(c: char) -> bool {
    c == ',' || c == ')'
}

/// Whether the texts of `left` and of `right` end where an item of a list
/// ends: a text of the one and a text of the other, each followed by a text
/// that begins with a comma or a closing parenthesis, give the same text
/// only if they and what follows them are the same.
pub open spec fn items_end(
    left: spec_fn(Seq<char>) -> bool,
    right: spec_fn(Seq<char>) -> bool,
) -> bool {
    forall|x: Seq<char>, u: Seq<char>, y: Seq<char>, v: Seq<char>|
        left(x) && right(y) && #[trigger] (x + u) == #[trigger] (y + v) && u.len() > 0 && v.len()
            > 0 && closes(u[0]) && closes(v[0]) ==> x == y && u == v
}

/// Whether every text of a list is in `lang`.
pub open spec fn all_in(items: Seq<Seq<char>>, lang: spec_fn(Seq<char>) -> bool) -> bool {
    forall|i: int| 0 <= i < items.len() ==> lang(#[trigger] items[i])
}

/// A list as the writers write it: the items separated by a comma, in
/// parentheses.
pub open spec fn list_text(items: Seq<Seq<char>>) -> Seq<char> {
    seq!['('] + joined(items, seq![',']) + seq![')']
}

/// A list of items that end where an item ends can be taken apart in one
/// way only, whatever follows it.
pub proof fn lemma_list_ends(
    a: Seq<Seq<char>>,
    u: Seq<char>,
    b: Seq<Seq<char>>,
    v: Seq<char>,
    left: spec_fn(Seq<char>) -> bool,
    right: spec_fn(Seq<char>) -> bool,
)
    requires
        a.len() > 0,
        b.len() > 0,
        all_in(a, left),
        all_in(b, right),
        items_end(left, right),
        list_text(a) + u == list_text(b) + v,
    ensures
        a == b,
        u == v,
{
    let open = seq!['('];
    let close = seq![')'];
    let ja = joined(a, seq![',']);
    let jb = joined(b, seq![',']);
    let s = close + u;
    let t = close + v;
    assert(list_text(a) + u =~= open + (ja + s));
    assert(list_text(b) + v =~= open + (jb + t));
    lemma_cancel_front(open, ja + s, jb + t);
    let stop = |c: char| c == ')';
    assert forall|x: Seq<char>, p: Seq<char>, y: Seq<char>, q: Seq<char>|
        left(x) && right(y) && #[trigger] (x + p) == #[trigger] (y + q) && p.len() > 0 && q.len()
            > 0 && (p[0] == ',' || stop(p[0])) && (q[0] == ',' || stop(q[0])) implies x == y && p
        == q by {
        assert(closes(p[0]) && closes(q[0]));
    }
    lemma_joined_ends(a, s, b, t, ',', left, right, stop);
    lemma_cancel_front(close, u, v);
}

/// The texts that are lists of items of `lang`.
pub open spec fn lists_of(lang: spec_fn(Seq<char>) -> bool) -> spec_fn(Seq<char>) -> bool {
    |x: Seq<char>|
        exists|items: Seq<Seq<char>>|
            items.len() > 0 && all_in(items, lang) && x == #[trigger] list_text(items)
}

/// Lists of items that end where an item ends do so themselves.
pub proof fn lemma_lists_end(lang: spec_fn(Seq<char>) -> bool)
    requires
        items_end(lang, lang),
    ensures
        items_end(lists_of(lang), lists_of(lang)),
{
    let lists = lists_of(lang);
    assert forall|x: Seq<char>, u: Seq<char>, y: Seq<char>, v: Seq<char>|
        lists(x) && lists(y) && #[trigger] (x + u) == #[trigger] (y + v) && u.len() > 0 && v.len()
            > 0 && closes(u[0]) && closes(v[0]) implies x == y && u == v by {
        let a = choose|items: Seq<Seq<char>>|
            items.len() > 0 && all_in(items, lang) && x == #[trigger] list_text(items);
        let b = choose|items: Seq<Seq<char>>|
            items.len() > 0 && all_in(items, lang) && y == #[trigger] list_text(items);
        lemma_list_ends(a, u, b, v, lang, lang);
    }
}

/// The texts of coordinates: one or more ordinates, separated by a space.
pub open spec fn is_coord_text(x: Seq<char>) -> bool {
    exists|words: Seq<Seq<char>>|
        words.len() > 0 && are_words(words) && x == #[trigger] joined(words, seq![' '])
}

/// The ordinates of a coordinate can be told from its text: two lists of
/// ordinates, each followed by a text that begins with a comma or a closing
/// parenthesis, give the same text only if they and what follows them are
/// the same.
pub proof fn lemma_words_end(a: Seq<Seq<char>>, u: Seq<char>, b: Seq<Seq<char>>, v: Seq<char>)
    requires
        a.len() > 0,
        b.len() > 0,
        are_words(a),
        are_words(b),
        joined(a, seq![' ']) + u == joined(b, seq![' ']) + v,
        u.len() > 0 && closes(u[0]),
        v.len() > 0 && closes(v[0]),
    ensures
        a == b,
        u == v,
{
    let lang = |x: Seq<char>| is_word(x);
    let stop = |c: char| closes(c);
    assert forall|x: Seq<char>, p: Seq<char>, y: Seq<char>, q: Seq<char>|
        lang(x) && lang(y) && #[trigger] (x + p) == #[trigger] (y + q) && p.len() > 0 && q.len() > 0
            && (p[0] == ' ' || stop(p[0])) && (q[0] == ' ' || stop(q[0])) implies x == y && p
        == q by {
        lemma_word_ends(x, p, y, q);
    }
    lemma_joined_ends(a, u, b, v, ' ', lang, lang, stop);
}

/// Coordinates end where an item ends.
pub proof fn lemma_coords_end()
    ensures
        items_end(|x: Seq<char>| is_coord_text(x), |x: Seq<char>| is_coord_text(x)),
{
    let lang = |x: Seq<char>| is_coord_text(x);
    assert forall|x: Seq<char>, u: Seq<char>, y: Seq<char>, v: Seq<char>|
        lang(x) && lang(y) && #[trigger] (x + u) == #[trigger] (y + v) && u.len() > 0 && v.len() > 0
            && closes(u[0]) && closes(v[0]) implies x == y && u == v by {
        let a = choose|words: Seq<Seq<char>>|
            words.len() > 0 && are_words(words) && x == #[trigger] joined(words, seq![' ']);
        let b = choose|words: Seq<Seq<char>>|
            words.len() > 0 && are_words(words) && y == #[trigger] joined(words, seq![' ']);
        lemma_words_end(a, u, b, v);
    }
}

/// Whether the first `n` ordinates of a coordinate can stand for ordinates.
pub open spec fn coord_is_plain(coord: Coord, n: nat) -> bool {
    n > 0 && are_words(ordinate_texts(coord, n))
}

/// Whether the coordinates of a list are plain.
pub open spec fn coords_are_plain(coords: Seq<Coord>, n: nat) -> bool {
    forall|i: int| 0 <= i < coords.len() ==> coord_is_plain(#[trigger] coords[i], n)
}

/// Whether the rings of a list are not empty and hold plain coordinates.
pub open spec fn rings_are_plain(rings: Seq<Vec<Coord>>, n: nat) -> bool {
    forall|i: int|
        0 <= i < rings.len() ==> (#[trigger] rings[i])@.len() > 0 && coords_are_plain(rings[i]@, n)
}

/// What a list of coordinates says: the ordinates of each coordinate.
pub open spec fn coords_model(coords: Seq<Coord>, n: nat) -> Seq<Seq<Seq<char>>> {
    Seq::new(coords.len(), |i: int| ordinate_texts(coords[i], n))
}

/// What a list of rings says: the coordinates of each ring.
pub open spec fn rings_model(rings: Seq<Vec<Coord>>, n: nat) -> Seq<Seq<Seq<Seq<char>>>> {
    Seq::new(rings.len(), |i: int| coords_model(rings[i]@, n))
}

/// The text of a plain coordinate is the text of a coordinate.
pub proof fn lemma_coord_text_is_coord(coord: Coord, n: nat)
    requires
        coord_is_plain(coord, n),
    ensures
        is_coord_text(coord_text(coord, n)),
{
    lemma_delimiters();
    let words = ordinate_texts(coord, n);
    assert(words.len() > 0 && are_words(words) && coord_text(coord, n) == joined(words, seq![' ']));
}

/// Plain coordinates that are written alike have the same ordinates.
pub proof fn lemma_coord_is_told(a: Coord, n: nat, b: Coord, m: nat)
    requires
        coord_is_plain(a, n),
        coord_is_plain(b, m),
        coord_text(a, n) == coord_text(b, m),
    ensures
        ordinate_texts(a, n) == ordinate_texts(b, m),
{
    lemma_delimiters();
    lemma_words_end(ordinate_texts(a, n), seq![')'], ordinate_texts(b, m), seq![')']);
}

/// The texts of plain coordinates are all texts of coordinates.
pub proof fn lemma_coord_texts_are_coords(coords: Seq<Coord>, n: nat)
    requires
        coords_are_plain(coords, n),
    ensures
        all_in(coord_texts(coords, n), |x: Seq<char>| is_coord_text(x)),
{
    let lang = |x: Seq<char>| is_coord_text(x);
    assert forall|i: int| 0 <= i < coord_texts(coords, n).len() implies lang(
        #[trigger] coord_texts(coords, n)[i],
    ) by {
        lemma_coord_text_is_coord(coords[i], n);
    }
}

/// The text of a list of coordinates is the list of their texts.
pub proof fn lemma_coords_text_is_list(coords: Seq<Coord>, n: nat)
    ensures
        coords_text(coords, n) == list_text(coord_texts(coords, n)),
{
    lemma_delimiters();
}

/// Lists of plain coordinates that are written alike, whatever follows
/// them, hold the same coordinates and are followed by the same.
pub proof fn lemma_coords_are_told(
    a: Seq<Coord>,
    n: nat,
    u: Seq<char>,
    b: Seq<Coord>,
    m: nat,
    v: Seq<char>,
)
    requires
        a.len() > 0,
        b.len() > 0,
        coords_are_plain(a, n),
        coords_are_plain(b, m),
        coords_text(a, n) + u == coords_text(b, m) + v,
    ensures
        coords_model(a, n) == coords_model(b, m),
        coord_texts(a, n) == coord_texts(b, m),
        u == v,
{
    let lang = |x: Seq<char>| is_coord_text(x);
    lemma_coords_text_is_list(a, n);
    lemma_coords_text_is_list(b, m);
    lemma_coord_texts_are_coords(a, n);
    lemma_coord_texts_are_coords(b, m);
    lemma_coords_end();
    lemma_list_ends(coord_texts(a, n), u, coord_texts(b, m), v, lang, lang);
    assert(a.len() == b.len()) by {
        assert(coord_texts(a, n).len() == a.len());
        assert(coord_texts(b, m).len() == b.len());
    }
    assert forall|i: int| 0 <= i < a.len() implies coords_model(a, n)[i] == coords_model(b, m)[i] by {
        assert(coord_texts(a, n)[i] == coord_texts(b, m)[i]);
        lemma_coord_is_told(a[i], n, b[i], m);
    }
    assert(coords_model(a, n) =~= coords_model(b, m));
}

/// The text of a list of plain coordinates is a list of coordinates.
pub proof fn lemma_coords_text_is_in_lists(coords: Seq<Coord>, n: nat)
    requires
        coords.len() > 0,
        coords_are_plain(coords, n),
    ensures
        lists_of(|x: Seq<char>| is_coord_text(x))(coords_text(coords, n)),
{
    lemma_coords_text_is_list(coords, n);
    lemma_coord_texts_are_coords(coords, n);
    let items = coord_texts(coords, n);
    assert(items.len() > 0 && all_in(items, |x: Seq<char>| is_coord_text(x)) && coords_text(coords, n)
        == list_text(items));
}

/// Lists of plain rings that are written alike, whatever follows them, hold
/// the same rings and are followed by the same.
pub proof fn lemma_rings_are_told(
    a: Seq<Vec<Coord>>,
    n: nat,
    u: Seq<char>,
    b: Seq<Vec<Coord>>,
    m: nat,
    v: Seq<char>,
)
    requires
        a.len() > 0,
        b.len() > 0,
        rings_are_plain(a, n),
        rings_are_plain(b, m),
        rings_text(a, n) + u == rings_text(b, m) + v,
    ensures
        rings_model(a, n) == rings_model(b, m),
        u == v,
{
    let coord = |x: Seq<char>| is_coord_text(x);
    let ring = lists_of(coord);
    lemma_delimiters();
    lemma_coords_end();
    lemma_lists_end(coord);
    assert(all_in(ring_texts(a, n), ring)) by {
        assert forall|i: int| 0 <= i < ring_texts(a, n).len() implies ring(
            #[trigger] ring_texts(a, n)[i],
        ) by {
            lemma_coords_text_is_in_lists(a[i]@, n);
        }
    }
    assert(all_in(ring_texts(b, m), ring)) by {
        assert forall|i: int| 0 <= i < ring_texts(b, m).len() implies ring(
            #[trigger] ring_texts(b, m)[i],
        ) by {
            lemma_coords_text_is_in_lists(b[i]@, m);
        }
    }
    assert(rings_text(a, n) == list_text(ring_texts(a, n)));
    assert(rings_text(b, m) == list_text(ring_texts(b, m)));
    lemma_list_ends(ring_texts(a, n), u, ring_texts(b, m), v, ring, ring);
    assert(a.len() == b.len()) by {
        assert(ring_texts(a, n).len() == a.len());
        assert(ring_texts(b, m).len() == b.len());
    }
    assert forall|i: int| 0 <= i < a.len() implies rings_model(a, n)[i] == rings_model(b, m)[i] by {
        assert(ring_texts(a, n)[i] == ring_texts(b, m)[i]);
        let none = Seq::<char>::empty();
        assert(coords_text(a[i]@, n) + none == coords_text(b[i]@, m) + none);
        lemma_coords_are_told(a[i]@, n, none, b[i]@, m, none);
    }
    assert(rings_model(a, n) =~= rings_model(b, m));
}

/// A list begins with a parenthesis.
pub proof fn lemma_list_begins(items: Seq<Seq<char>>)
    ensures
        list_text(items).len() > 0,
        list_text(items)[0] == '(',
        parenthesized(joined(items, ","@)) == list_text(items),
{
    lemma_delimiters();
    let x = seq!['('] + joined(items, seq![',']);
    assert(x[0] == '(');
    assert((x + seq![')'])[0] == x[0]);
}

/// What follows the keyword of a geometry: ` EMPTY`, or the dimension infix
/// and a list.
pub open spec fn body_text(list: Option<(Dimensions, Seq<char>)>) -> Seq<char> {
    match list {
        Some((dim, list)) => dimension_text(dim) + list,
        None => " EMPTY"@,
    }
}

/// What follows the keyword tells an empty geometry from one with
/// coordinates, and says the dimension of the latter: two texts that begin
/// with the same keyword and go on with ` EMPTY` or with the dimension and a
/// list are the same only if both are empty, or both have the same
/// dimension and go on alike from the list on.
pub proof fn lemma_body_ends(
    keyword: Seq<char>,
    a: Option<(Dimensions, Seq<char>)>,
    u: Seq<char>,
    b: Option<(Dimensions, Seq<char>)>,
    v: Seq<char>,
)
    requires
        match a {
            Some((_, list)) => list.len() > 0 && list[0] == '(',
            None => true,
        },
        match b {
            Some((_, list)) => list.len() > 0 && list[0] == '(',
            None => true,
        },
        keyword + body_text(a) + u == keyword + body_text(b) + v,
    ensures
        match (a, b) {
            (Some((d1, l1)), Some((d2, l2))) => d1 == d2 && l1 + u == l2 + v,
            (None, None) => u == v,
            _ => false,
        },
{
    reveal_strlit(" ");
    reveal_strlit(" Z ");
    reveal_strlit(" EMPTY");
    let x = body_text(a) + u;
    let y = body_text(b) + v;
    assert(keyword + body_text(a) + u =~= keyword + x);
    assert(keyword + body_text(b) + v =~= keyword + y);
    lemma_cancel_front(keyword, x, y);
    let mark = |l: Option<(Dimensions, Seq<char>)>|
        match l {
            None => 'E',
            Some((Dimensions::Xy, _)) => '(',
            Some((Dimensions::Xyz, _)) => 'Z',
        };
    assert(x[1] == mark(a)) by {
        match a {
            None => {
                assert(x[1] == " EMPTY"@[1]);
            },
            Some((Dimensions::Xy, l)) => {
                assert(body_text(a)[1] == l[0]);
                assert(x[1] == body_text(a)[1]);
            },
            Some((Dimensions::Xyz, l)) => {
                assert(body_text(a)[1] == " Z "@[1]);
                assert(x[1] == body_text(a)[1]);
            },
        }
    }
    assert(y[1] == mark(b)) by {
        match b {
            None => {
                assert(y[1] == " EMPTY"@[1]);
            },
            Some((Dimensions::Xy, l)) => {
                assert(body_text(b)[1] == l[0]);
                assert(y[1] == body_text(b)[1]);
            },
            Some((Dimensions::Xyz, l)) => {
                assert(body_text(b)[1] == " Z "@[1]);
                assert(y[1] == body_text(b)[1]);
            },
        }
    }
    match (a, b) {
        (None, None) => {
            lemma_cancel_front(" EMPTY"@, u, v);
        },
        (Some((d1, l1)), Some((d2, l2))) => {
            assert(d1 == d2);
            assert(x =~= dimension_text(d1) + (l1 + u));
            assert(y =~= dimension_text(d1) + (l2 + v));
            lemma_cancel_front(dimension_text(d1), l1 + u, l2 + v);
        },
        _ => {},
    }
}

/// Whether the ordinates of a point can stand for ordinates.
pub open spec fn point_is_plain(point: Point) -> bool {
    point.coord is Some ==> coord_is_plain(point.coord->0, point.dim.spec_size())
}

/// What a point says: nothing if it is empty, and else its dimension and
/// its ordinates.
pub open spec fn point_model(point: Point) -> Option<(Dimensions, Seq<Seq<char>>)> {
    match point.coord {
        Some(c) => Some((point.dim, ordinate_texts(c, point.dim.spec_size()))),
        None => None,
    }
}

/// Plain points that are written alike, whatever follows them, say the
/// same and are followed by the same.
pub proof fn lemma_point_ends(a: Point, u: Seq<char>, b: Point, v: Seq<char>)
    requires
        point_is_plain(a),
        point_is_plain(b),
        point_text(a) + u == point_text(b) + v,
    ensures
        point_model(a) == point_model(b),
        u == v,
{
    let one = |p: Point| seq![coord_text(p.coord->0, p.dim.spec_size())];
    let list = |p: Point|
        match p.coord {
            Some(c) => Some((p.dim, list_text(one(p)))),
            None => None,
        };
    assert forall|p: Point| (p == a || p == b) implies #[trigger] point_text(p) == "POINT"@
        + body_text(list(p)) by {
        if p.coord is Some {
            lemma_list_begins(one(p));
            assert(joined(one(p), ","@) == coord_text(p.coord->0, p.dim.spec_size()));
        }
    }
    lemma_list_begins(one(a));
    lemma_list_begins(one(b));
    lemma_body_ends("POINT"@, list(a), u, list(b), v);
    if a.coord is Some {
        let lang = |x: Seq<char>| is_coord_text(x);
        lemma_coords_end();
        lemma_coord_text_is_coord(a.coord->0, a.dim.spec_size());
        lemma_coord_text_is_coord(b.coord->0, b.dim.spec_size());
        lemma_list_ends(one(a), u, one(b), v, lang, lang);
        assert(one(a)[0] == one(b)[0]);
        lemma_coord_is_told(a.coord->0, a.dim.spec_size(), b.coord->0, b.dim.spec_size());
    }
}

/// Whether the ordinates of a line string can stand for ordinates.
pub open spec fn linestring_is_plain(line: LineString) -> bool {
    coords_are_plain(line.coords@, line.dim.spec_size())
}

/// What a line string says: nothing if it is empty, and else its dimension
/// and the ordinates of its coordinates.
pub open spec fn linestring_model(line: LineString) -> Option<(Dimensions, Seq<Seq<Seq<char>>>)> {
    if line.coords@.len() == 0 {
        None
    } else {
        Some((line.dim, coords_model(line.coords@, line.dim.spec_size())))
    }
}

/// Plain line strings that are written alike, whatever follows them, say
/// the same and are followed by the same.
pub proof fn lemma_linestring_ends(a: LineString, u: Seq<char>, b: LineString, v: Seq<char>)
    requires
        linestring_is_plain(a),
        linestring_is_plain(b),
        linestring_text(a) + u == linestring_text(b) + v,
    ensures
        linestring_model(a) == linestring_model(b),
        u == v,
{
    let list = |l: LineString|
        if l.coords@.len() > 0 {
            Some((l.dim, coords_text(l.coords@, l.dim.spec_size())))
        } else {
            None
        };
    assert(linestring_text(a) == "LINESTRING"@ + body_text(list(a)));
    assert(linestring_text(b) == "LINESTRING"@ + body_text(list(b)));
    lemma_list_begins(coord_texts(a.coords@, a.dim.spec_size()));
    lemma_list_begins(coord_texts(b.coords@, b.dim.spec_size()));
    lemma_body_ends("LINESTRING"@, list(a), u, list(b), v);
    if a.coords@.len() > 0 {
        lemma_coords_are_told(a.coords@, a.dim.spec_size(), u, b.coords@, b.dim.spec_size(), v);
    }
}

/// Whether the ordinates of a polygon can stand for ordinates, and none of
/// its rings is empty.
pub open spec fn polygon_is_plain(polygon: Polygon) -> bool {
    !polygon.is_empty() ==> rings_are_plain(polygon.rings@, polygon.dim.spec_size())
}

/// What a polygon says: nothing if it is empty, and else its dimension and
/// the coordinates of its rings.
pub open spec fn polygon_model(polygon: Polygon) -> Option<(Dimensions, Seq<Seq<Seq<Seq<char>>>>)> {
    if polygon.is_empty() {
        None
    } else {
        Some((polygon.dim, rings_model(polygon.rings@, polygon.dim.spec_size())))
    }
}

/// Plain polygons that are written alike, whatever follows them, say the
/// same and are followed by the same.
pub proof fn lemma_polygon_ends(a: Polygon, u: Seq<char>, b: Polygon, v: Seq<char>)
    requires
        polygon_is_plain(a),
        polygon_is_plain(b),
        polygon_text(a) + u == polygon_text(b) + v,
    ensures
        polygon_model(a) == polygon_model(b),
        u == v,
{
    let list = |p: Polygon|
        if !p.is_empty() {
            Some((p.dim, rings_text(p.rings@, p.dim.spec_size())))
        } else {
            None
        };
    assert(polygon_text(a) == "POLYGON"@ + body_text(list(a)));
    assert(polygon_text(b) == "POLYGON"@ + body_text(list(b)));
    lemma_list_begins(ring_texts(a.rings@, a.dim.spec_size()));
    lemma_list_begins(ring_texts(b.rings@, b.dim.spec_size()));
    lemma_body_ends("POLYGON"@, list(a), u, list(b), v);
    if !a.is_empty() {
        lemma_rings_are_told(a.rings@, a.dim.spec_size(), u, b.rings@, b.dim.spec_size(), v);
    }
}

/// Whether no point of a multi-point is empty, and the ordinates can stand
/// for ordinates.
pub open spec fn multi_point_is_plain(multi: MultiPoint) -> bool {
    forall|i: int|
        0 <= i < multi.points@.len() ==> coord_is_plain(
            (#[trigger] multi.points@[i]).coord->0,
            multi.dim.spec_size(),
        )
}

/// The ordinates of the points of a list.
pub open spec fn points_model(points: Seq<Point>, n: nat) -> Seq<Seq<Seq<char>>> {
    Seq::new(points.len(), |i: int| ordinate_texts(points[i].coord->0, n))
}

/// What a multi-point says: nothing if it is empty, and else its dimension
/// and the ordinates of its points.
pub open spec fn multi_point_model(multi: MultiPoint) -> Option<(Dimensions, Seq<Seq<Seq<char>>>)> {
    if multi.points@.len() == 0 {
        None
    } else {
        Some((multi.dim, points_model(multi.points@, multi.dim.spec_size())))
    }
}

/// Plain multi-points that are written alike, whatever follows them, say
/// the same and are followed by the same.
pub proof fn lemma_multi_point_ends(a: MultiPoint, u: Seq<char>, b: MultiPoint, v: Seq<char>)
    requires
        multi_point_is_plain(a),
        multi_point_is_plain(b),
        multi_point_text(a) + u == multi_point_text(b) + v,
    ensures
        multi_point_model(a) == multi_point_model(b),
        u == v,
{
    let items = |m: MultiPoint| point_texts(m.points@, m.dim.spec_size());
    let list = |m: MultiPoint|
        if m.points@.len() > 0 {
            Some((m.dim, list_text(items(m))))
        } else {
            None
        };
    lemma_list_begins(items(a));
    lemma_list_begins(items(b));
    assert(multi_point_text(a) == "MULTIPOINT"@ + body_text(list(a)));
    assert(multi_point_text(b) == "MULTIPOINT"@ + body_text(list(b)));
    lemma_body_ends("MULTIPOINT"@, list(a), u, list(b), v);
    if a.points@.len() > 0 {
        let coord = |x: Seq<char>| is_coord_text(x);
        let point = lists_of(coord);
        let n = a.dim.spec_size();
        lemma_coords_end();
        lemma_lists_end(coord);
        let one = |p: Point| seq![coord_text(p.coord->0, n)];
        assert forall|m: MultiPoint, i: int|
            (m == a || m == b) && 0 <= i < m.points@.len() implies point(#[trigger] items(m)[i])
            && items(m)[i] == list_text(one(m.points@[i])) by {
            let p = m.points@[i];
            lemma_coord_text_is_coord(p.coord->0, n);
            lemma_list_begins(one(p));
            assert(joined(one(p), ","@) == coord_text(p.coord->0, n));
            assert(one(p).len() > 0 && all_in(one(p), coord) && items(m)[i] == list_text(one(p)));
        }
        assert(all_in(items(a), point));
        assert(all_in(items(b), point));
        lemma_list_ends(items(a), u, items(b), v, point, point);
        assert(a.points@.len() == b.points@.len()) by {
            assert(items(a).len() == a.points@.len());
            assert(items(b).len() == b.points@.len());
        }
        let none = Seq::<char>::empty();
        assert forall|i: int| 0 <= i < a.points@.len() implies points_model(a.points@, n)[i]
            == points_model(b.points@, n)[i] by {
            let p = a.points@[i];
            let q = b.points@[i];
            assert(items(a)[i] == items(b)[i]);
            assert(items(a)[i] == list_text(one(p)));
            assert(items(b)[i] == list_text(one(q)));
            lemma_coord_text_is_coord(p.coord->0, n);
            lemma_coord_text_is_coord(q.coord->0, n);
            assert(list_text(one(p)) + none == list_text(one(q)) + none);
            lemma_list_ends(one(p), none, one(q), none, coord, coord);
            assert(one(p)[0] == one(q)[0]);
            lemma_coord_is_told(p.coord->0, n, q.coord->0, n);
        }
        assert(points_model(a.points@, n) =~= points_model(b.points@, n));
    }
}

/// Whether no line of a multi-line-string is empty, and the ordinates can
/// stand for ordinates.
pub open spec fn multi_linestring_is_plain(multi: MultiLineString) -> bool {
    forall|i: int|
        0 <= i < multi.lines@.len() ==> (#[trigger] multi.lines@[i]).coords@.len() > 0
            && coords_are_plain(multi.lines@[i].coords@, multi.dim.spec_size())
}

/// The coordinates of the lines of a list.
pub open spec fn lines_model(lines: Seq<LineString>, n: nat) -> Seq<Seq<Seq<Seq<char>>>> {
    Seq::new(lines.len(), |i: int| coords_model(lines[i].coords@, n))
}

/// What a multi-line-string says: nothing if it is empty, and else its
/// dimension and the coordinates of its lines.
pub open spec fn multi_linestring_model(multi: MultiLineString) -> Option<
    (Dimensions, Seq<Seq<Seq<Seq<char>>>>),
> {
    if multi.lines@.len() == 0 {
        None
    } else {
        Some((multi.dim, lines_model(multi.lines@, multi.dim.spec_size())))
    }
}

/// Plain multi-line-strings that are written alike, whatever follows them,
/// say the same and are followed by the same.
pub proof fn lemma_multi_linestring_ends(
    a: MultiLineString,
    u: Seq<char>,
    b: MultiLineString,
    v: Seq<char>,
)
    requires
        multi_linestring_is_plain(a),
        multi_linestring_is_plain(b),
        multi_linestring_text(a) + u == multi_linestring_text(b) + v,
    ensures
        multi_linestring_model(a) == multi_linestring_model(b),
        u == v,
{
    let items = |m: MultiLineString| line_texts(m.lines@, m.dim.spec_size());
    let list = |m: MultiLineString|
        if m.lines@.len() > 0 {
            Some((m.dim, list_text(items(m))))
        } else {
            None
        };
    lemma_list_begins(items(a));
    lemma_list_begins(items(b));
    assert(multi_linestring_text(a) == "MULTILINESTRING"@ + body_text(list(a)));
    assert(multi_linestring_text(b) == "MULTILINESTRING"@ + body_text(list(b)));
    lemma_body_ends("MULTILINESTRING"@, list(a), u, list(b), v);
    if a.lines@.len() > 0 {
        let coord = |x: Seq<char>| is_coord_text(x);
        let line = lists_of(coord);
        let n = a.dim.spec_size();
        lemma_coords_end();
        lemma_lists_end(coord);
        assert forall|m: MultiLineString, i: int|
            (m == a || m == b) && 0 <= i < m.lines@.len() implies line(#[trigger] items(m)[i]) by {
            lemma_coords_text_is_in_lists(m.lines@[i].coords@, n);
        }
        assert(all_in(items(a), line));
        assert(all_in(items(b), line));
        lemma_list_ends(items(a), u, items(b), v, line, line);
        assert(a.lines@.len() == b.lines@.len()) by {
            assert(items(a).len() == a.lines@.len());
            assert(items(b).len() == b.lines@.len());
        }
        let none = Seq::<char>::empty();
        assert forall|i: int| 0 <= i < a.lines@.len() implies lines_model(a.lines@, n)[i]
            == lines_model(b.lines@, n)[i] by {
            assert(items(a)[i] == items(b)[i]);
            assert(coords_text(a.lines@[i].coords@, n) + none == coords_text(b.lines@[i].coords@, n)
                + none);
            lemma_coords_are_told(a.lines@[i].coords@, n, none, b.lines@[i].coords@, n, none);
        }
        assert(lines_model(a.lines@, n) =~= lines_model(b.lines@, n));
    }
}

/// Whether every polygon of a multi-polygon has a ring, no ring is empty,
/// and the ordinates can stand for ordinates.
pub open spec fn multi_polygon_is_plain(multi: MultiPolygon) -> bool {
    forall|i: int|
        0 <= i < multi.polygons@.len() ==> (#[trigger] multi.polygons@[i]).rings@.len() > 0
            && rings_are_plain(multi.polygons@[i].rings@, multi.dim.spec_size())
}

/// The rings of the polygons of a list.
pub open spec fn polygons_model(polygons: Seq<Polygon>, n: nat) -> Seq<Seq<Seq<Seq<Seq<char>>>>> {
    Seq::new(polygons.len(), |i: int| rings_model(polygons[i].rings@, n))
}

/// What a multi-polygon says: nothing if it is empty, and else its
/// dimension and the rings of its polygons.
pub open spec fn multi_polygon_model(multi: MultiPolygon) -> Option<
    (Dimensions, Seq<Seq<Seq<Seq<Seq<char>>>>>),
> {
    if multi.polygons@.len() == 0 {
        None
    } else {
        Some((multi.dim, polygons_model(multi.polygons@, multi.dim.spec_size())))
    }
}

/// The text of a list of plain rings is a list of lists of coordinates.
pub proof fn lemma_rings_text_is_in_lists(rings: Seq<Vec<Coord>>, n: nat)
    requires
        rings.len() > 0,
        rings_are_plain(rings, n),
    ensures
        lists_of(lists_of(|x: Seq<char>| is_coord_text(x)))(rings_text(rings, n)),
{
    let coord = |x: Seq<char>| is_coord_text(x);
    let ring = lists_of(coord);
    let items = ring_texts(rings, n);
    lemma_list_begins(items);
    assert forall|i: int| 0 <= i < items.len() implies ring(#[trigger] items[i]) by {
        lemma_coords_text_is_in_lists(rings[i]@, n);
    }
    assert(items.len() > 0 && all_in(items, ring) && rings_text(rings, n) == list_text(items));
}

/// Plain multi-polygons that are written alike, whatever follows them, say
/// the same and are followed by the same.
pub proof fn lemma_multi_polygon_ends(a: MultiPolygon, u: Seq<char>, b: MultiPolygon, v: Seq<char>)
    requires
        multi_polygon_is_plain(a),
        multi_polygon_is_plain(b),
        multi_polygon_text(a) + u == multi_polygon_text(b) + v,
    ensures
        multi_polygon_model(a) == multi_polygon_model(b),
        u == v,
{
    let items = |m: MultiPolygon| polygon_texts(m.polygons@, m.dim.spec_size());
    let list = |m: MultiPolygon|
        if m.polygons@.len() > 0 {
            Some((m.dim, list_text(items(m))))
        } else {
            None
        };
    lemma_list_begins(items(a));
    lemma_list_begins(items(b));
    assert(multi_polygon_text(a) == "MULTIPOLYGON"@ + body_text(list(a)));
    assert(multi_polygon_text(b) == "MULTIPOLYGON"@ + body_text(list(b)));
    lemma_body_ends("MULTIPOLYGON"@, list(a), u, list(b), v);
    if a.polygons@.len() > 0 {
        let coord = |x: Seq<char>| is_coord_text(x);
        let ring = lists_of(coord);
        let polygon = lists_of(ring);
        let n = a.dim.spec_size();
        lemma_coords_end();
        lemma_lists_end(coord);
        lemma_lists_end(ring);
        assert forall|m: MultiPolygon, i: int|
            (m == a || m == b) && 0 <= i < m.polygons@.len() implies polygon(
            #[trigger] items(m)[i],
        ) by {
            lemma_rings_text_is_in_lists(m.polygons@[i].rings@, n);
        }
        assert(all_in(items(a), polygon));
        assert(all_in(items(b), polygon));
        lemma_list_ends(items(a), u, items(b), v, polygon, polygon);
        assert(a.polygons@.len() == b.polygons@.len()) by {
            assert(items(a).len() == a.polygons@.len());
            assert(items(b).len() == b.polygons@.len());
        }
        let none = Seq::<char>::empty();
        assert forall|i: int| 0 <= i < a.polygons@.len() implies polygons_model(a.polygons@, n)[i]
            == polygons_model(b.polygons@, n)[i] by {
            assert(items(a)[i] == items(b)[i]);
            assert(rings_text(a.polygons@[i].rings@, n) + none == rings_text(
                b.polygons@[i].rings@,
                n,
            ) + none);
            lemma_rings_are_told(a.polygons@[i].rings@, n, none, b.polygons@[i].rings@, n, none);
        }
        assert(polygons_model(a.polygons@, n) =~= polygons_model(b.polygons@, n));
    }
}

/// Texts that are equal before the same text are equal.
pub proof fn lemma_cancel_back(x: Seq<char>, y: Seq<char>, s: Seq<char>)
    requires
        x + s == y + s,
    ensures
        x == y,
{
    let a = x + s;
    let b = y + s;
    assert(a.len() == x.len() + s.len());
    assert(b.len() == y.len() + s.len());
    assert forall|i: int| 0 <= i < x.len() implies x[i] == y[i] by {
        assert(a[i] == x[i]);
        assert(b[i] == y[i]);
    }
    assert(x =~= y);
}

/// What a geometry says: its variant and, unless it is empty, its dimension
/// and its ordinates, in their nesting. Of a rectangle nothing is said.
pub enum GeometryModel {
    Point(Option<(Dimensions, Seq<Seq<char>>)>),
    LineString(Option<(Dimensions, Seq<Seq<Seq<char>>>)>),
    Polygon(Option<(Dimensions, Seq<Seq<Seq<Seq<char>>>>)>),
    MultiPoint(Option<(Dimensions, Seq<Seq<Seq<char>>>)>),
    MultiLineString(Option<(Dimensions, Seq<Seq<Seq<Seq<char>>>>)>),
    MultiPolygon(Option<(Dimensions, Seq<Seq<Seq<Seq<Seq<char>>>>>)>),
    GeometryCollection(Option<(Dimensions, Seq<GeometryModel>)>),
    Rect,
}

/// What a geometry says.
pub open spec fn geometry_model(geometry: Geometry) -> GeometryModel
    decreases geometry,
{
    match geometry {
        Geometry::Point(g) => GeometryModel::Point(point_model(g)),
        Geometry::LineString(g) => GeometryModel::LineString(linestring_model(g)),
        Geometry::Polygon(g) => GeometryModel::Polygon(polygon_model(g)),
        Geometry::MultiPoint(g) => GeometryModel::MultiPoint(multi_point_model(g)),
        Geometry::MultiLineString(g) => GeometryModel::MultiLineString(multi_linestring_model(g)),
        Geometry::MultiPolygon(g) => GeometryModel::MultiPolygon(multi_polygon_model(g)),
        Geometry::GeometryCollection(g) => GeometryModel::GeometryCollection(
            if g.geometries@.len() == 0 {
                None
            } else {
                Some((g.dim, geometry_models(g.geometries)))
            },
        ),
        Geometry::Rect(_) => GeometryModel::Rect,
    }
}

/// What the geometries of a list say.
pub open spec fn geometry_models(geometries: Vec<Geometry>) -> Seq<GeometryModel>
    decreases geometries,
{
    Seq::new(
        geometries@.len(),
        |i: int|
            if 0 <= i < geometries.len() {
                geometry_model(geometries[i])
            } else {
                GeometryModel::Rect
            },
    )
}

/// Whether a geometry has ordinates that can stand for ordinates, and no
/// empty part where the writers expect none. A collection is plain if the
/// geometries in it are; a rectangle is not.
pub open spec fn geometry_is_plain(geometry: Geometry) -> bool
    decreases geometry,
{
    match geometry {
        Geometry::Point(g) => point_is_plain(g),
        Geometry::LineString(g) => linestring_is_plain(g),
        Geometry::Polygon(g) => polygon_is_plain(g),
        Geometry::MultiPoint(g) => multi_point_is_plain(g),
        Geometry::MultiLineString(g) => multi_linestring_is_plain(g),
        Geometry::MultiPolygon(g) => multi_polygon_is_plain(g),
        Geometry::GeometryCollection(g) => geometries_are_plain(g.geometries),
        Geometry::Rect(_) => false,
    }
}

/// Whether every geometry of a list is plain.
pub open spec fn geometries_are_plain(geometries: Vec<Geometry>) -> bool
    decreases geometries,
{
    forall|i: int| 0 <= i < geometries.len() ==> geometry_is_plain(#[trigger] geometries[i])
}

/// The greatest number of a list; 0 for the empty list.
pub open spec fn greatest(numbers: Seq<nat>) -> nat
    decreases numbers.len(),
{
    if numbers.len() == 0 {
        0
    } else if greatest(numbers.drop_last()) < numbers.last() {
        numbers.last()
    } else {
        greatest(numbers.drop_last())
    }
}

/// No number of a list is above the greatest.
pub proof fn lemma_greatest_bounds(numbers: Seq<nat>, i: int)
    requires
        0 <= i < numbers.len(),
    ensures
        numbers[i] <= greatest(numbers),
    decreases numbers.len(),
{
    if i < numbers.len() - 1 {
        lemma_greatest_bounds(numbers.drop_last(), i);
    }
}

/// How deep collections are nested in a geometry: 0 for a geometry that is
/// no collection.
pub open spec fn depth(geometry: Geometry) -> nat
    decreases geometry,
{
    match geometry {
        Geometry::GeometryCollection(g) => 1 + greatest(depths(g.geometries)),
        _ => 0,
    }
}

/// The depths of the geometries of a list.
pub open spec fn depths(geometries: Vec<Geometry>) -> Seq<nat>
    decreases geometries,
{
    Seq::new(
        geometries@.len(),
        |i: int|
            if 0 <= i < geometries.len() {
                depth(geometries[i])
            } else {
                0
            },
    )
}

/// The keyword of a variant.
pub open spec fn keyword(geometry: Geometry) -> Seq<char> {
    match geometry {
        Geometry::Point(_) => "POINT"@,
        Geometry::LineString(_) => "LINESTRING"@,
        Geometry::Polygon(_) => "POLYGON"@,
        Geometry::MultiPoint(_) => "MULTIPOINT"@,
        Geometry::MultiLineString(_) => "MULTILINESTRING"@,
        Geometry::MultiPolygon(_) => "MULTIPOLYGON"@,
        Geometry::GeometryCollection(_) => "GEOMETRYCOLLECTION"@,
        Geometry::Rect(_) => "POLYGON "@,
    }
}

/// What follows the keyword in the text of a geometry that is no rectangle.
pub open spec fn body_of(geometry: Geometry) -> Seq<char> {
    match geometry {
        Geometry::Point(g) => match g.coord {
            Some(c) => dimension_text(g.dim) + parenthesized(coord_text(c, g.dim.spec_size())),
            None => " EMPTY"@,
        },
        Geometry::LineString(g) => if g.coords@.len() > 0 {
            dimension_text(g.dim) + coords_text(g.coords@, g.dim.spec_size())
        } else {
            " EMPTY"@
        },
        Geometry::Polygon(g) => if !g.is_empty() {
            dimension_text(g.dim) + rings_text(g.rings@, g.dim.spec_size())
        } else {
            " EMPTY"@
        },
        Geometry::MultiPoint(g) => if g.points@.len() > 0 {
            dimension_text(g.dim) + parenthesized(
                joined(point_texts(g.points@, g.dim.spec_size()), ","@),
            )
        } else {
            " EMPTY"@
        },
        Geometry::MultiLineString(g) => if g.lines@.len() > 0 {
            dimension_text(g.dim) + parenthesized(
                joined(line_texts(g.lines@, g.dim.spec_size()), ","@),
            )
        } else {
            " EMPTY"@
        },
        Geometry::MultiPolygon(g) => if g.polygons@.len() > 0 {
            dimension_text(g.dim) + parenthesized(
                joined(polygon_texts(g.polygons@, g.dim.spec_size()), ","@),
            )
        } else {
            " EMPTY"@
        },
        Geometry::GeometryCollection(g) => if g.geometries@.len() > 0 {
            dimension_text(g.dim) + parenthesized(joined(geometry_texts(g.geometries), ","@))
        } else {
            " EMPTY"@
        },
        Geometry::Rect(_) => Seq::empty(),
    }
}

/// The text of a geometry that is no rectangle is the keyword of its
/// variant and what follows it.
pub proof fn lemma_text_begins_with_keyword(geometry: Geometry)
    requires
        !(geometry is Rect),
    ensures
        geometry_text(geometry) == keyword(geometry) + body_of(geometry),
{
}

/// Plain geometries that are written alike, whatever follows them, are of
/// the same variant.
pub proof fn lemma_variant_ends(a: Geometry, u: Seq<char>, b: Geometry, v: Seq<char>)
    requires
        !(a is Rect),
        !(b is Rect),
        geometry_text(a) + u == geometry_text(b) + v,
    ensures
        a is Point == b is Point,
        a is LineString == b is LineString,
        a is Polygon == b is Polygon,
        a is MultiPoint == b is MultiPoint,
        a is MultiLineString == b is MultiLineString,
        a is MultiPolygon == b is MultiPolygon,
        a is GeometryCollection == b is GeometryCollection,
{
    reveal_strlit("POINT");
    reveal_strlit("LINESTRING");
    reveal_strlit("POLYGON");
    reveal_strlit("MULTIPOINT");
    reveal_strlit("MULTILINESTRING");
    reveal_strlit("MULTIPOLYGON");
    reveal_strlit("GEOMETRYCOLLECTION");
    lemma_text_begins_with_keyword(a);
    lemma_text_begins_with_keyword(b);
    let t = geometry_text(a) + u;
    let ka = keyword(a);
    let kb = keyword(b);
    assert(t == ka + body_of(a) + u);
    assert(t == kb + body_of(b) + v);
    assert forall|i: int| 0 <= i < ka.len() implies t[i] == ka[i] by {
        assert((ka + body_of(a))[i] == ka[i]);
    }
    assert forall|i: int| 0 <= i < kb.len() implies t[i] == kb[i] by {
        assert((kb + body_of(b))[i] == kb[i]);
    }
    assert(t[0] == ka[0] && t[0] == kb[0]);
    assert(t[2] == ka[2] && t[2] == kb[2]);
    if a is MultiPoint || a is MultiLineString || a is MultiPolygon {
        assert(b is MultiPoint || b is MultiLineString || b is MultiPolygon);
        assert(t[5] == ka[5] && t[5] == kb[5]);
        assert(t[7] == ka[7] && t[7] == kb[7]);
    }
}

/// Well-known text can be read back: plain geometries that are written
/// alike, whatever follows them, say the same and are followed by the same.
pub proof fn lemma_geometry_ends(a: Geometry, u: Seq<char>, b: Geometry, v: Seq<char>)
    requires
        geometry_is_plain(a),
        geometry_is_plain(b),
        geometry_text(a) + u == geometry_text(b) + v,
    ensures
        geometry_model(a) == geometry_model(b),
        geometry_text(a) == geometry_text(b),
        u == v,
    decreases depth(a),
{
    lemma_variant_ends(a, u, b, v);
    match (a, b) {
        (Geometry::Point(x), Geometry::Point(y)) => lemma_point_ends(x, u, y, v),
        (Geometry::LineString(x), Geometry::LineString(y)) => lemma_linestring_ends(x, u, y, v),
        (Geometry::Polygon(x), Geometry::Polygon(y)) => lemma_polygon_ends(x, u, y, v),
        (Geometry::MultiPoint(x), Geometry::MultiPoint(y)) => lemma_multi_point_ends(x, u, y, v),
        (Geometry::MultiLineString(x), Geometry::MultiLineString(y)) => {
            lemma_multi_linestring_ends(x, u, y, v)
        },
        (Geometry::MultiPolygon(x), Geometry::MultiPolygon(y)) => {
            lemma_multi_polygon_ends(x, u, y, v)
        },
        (Geometry::GeometryCollection(x), Geometry::GeometryCollection(y)) => {
            let items = |g: GeometryCollection| geometry_texts(g.geometries);
            let list = |g: GeometryCollection|
                if g.geometries@.len() > 0 {
                    Some((g.dim, list_text(items(g))))
                } else {
                    None
                };
            lemma_list_begins(items(x));
            lemma_list_begins(items(y));
            assert(geometry_text(a) == "GEOMETRYCOLLECTION"@ + body_text(list(x)));
            assert(geometry_text(b) == "GEOMETRYCOLLECTION"@ + body_text(list(y)));
            lemma_body_ends("GEOMETRYCOLLECTION"@, list(x), u, list(y), v);
            if x.geometries@.len() > 0 {
                let d = depth(a);
                let left = |t: Seq<char>|
                    exists|g: Geometry|
                        geometry_is_plain(g) && depth(g) < d && t == #[trigger] geometry_text(g);
                let right = |t: Seq<char>|
                    exists|g: Geometry| geometry_is_plain(g) && t == #[trigger] geometry_text(g);
                assert forall|i: int| 0 <= i < items(x).len() implies left(
                    #[trigger] items(x)[i],
                ) by {
                    let g = x.geometries[i];
                    assert(geometry_is_plain(g));
                    lemma_greatest_bounds(depths(x.geometries), i);
                    assert(depth(g) < d);
                    assert(items(x)[i] == geometry_text(g));
                }
                assert forall|i: int| 0 <= i < items(y).len() implies right(
                    #[trigger] items(y)[i],
                ) by {
                    let g = y.geometries[i];
                    assert(geometry_is_plain(g));
                    assert(items(y)[i] == geometry_text(g));
                }
                assert(items_end(left, right)) by {
                    assert forall|s: Seq<char>, p: Seq<char>, t: Seq<char>, q: Seq<char>|
                        left(s) && right(t) && #[trigger] (s + p) == #[trigger] (t + q) && p.len()
                            > 0 && q.len() > 0 && closes(p[0]) && closes(q[0]) implies s == t && p
                        == q by {
                        let g = choose|g: Geometry|
                            geometry_is_plain(g) && depth(g) < d && s == #[trigger] geometry_text(g);
                        let h = choose|h: Geometry|
                            geometry_is_plain(h) && t == #[trigger] geometry_text(h);
                        lemma_geometry_ends(g, p, h, q);
                    }
                }
                lemma_list_ends(items(x), u, items(y), v, left, right);
                assert(x.geometries@.len() == y.geometries@.len()) by {
                    assert(items(x).len() == x.geometries@.len());
                    assert(items(y).len() == y.geometries@.len());
                }
                let none = Seq::<char>::empty();
                assert forall|i: int| 0 <= i < x.geometries@.len() implies geometry_models(
                    x.geometries,
                )[i] == geometry_models(y.geometries)[i] by {
                    let g = x.geometries[i];
                    let h = y.geometries[i];
                    assert(items(x)[i] == items(y)[i]);
                    assert(geometry_text(g) + none == geometry_text(h) + none);
                    lemma_greatest_bounds(depths(x.geometries), i);
                    lemma_geometry_ends(g, none, h, none);
                }
                assert(geometry_models(x.geometries) =~= geometry_models(y.geometries));
            }
        },
        _ => {},
    }
    lemma_cancel_back(geometry_text(a), geometry_text(b), u);
}

/// Well-known text can be read back: geometries that are written alike say
/// the same. This holds of the geometries that are plain: points, line
/// strings, polygons, their multiples and collections of such, whose
/// ordinates hold no space, comma or parenthesis, and which have no empty
/// part where the writers expect none. What a geometry says is its variant
/// and, unless it is empty, its dimension and its ordinates; empty
/// geometries of one variant are written alike whatever their dimension.
pub proof fn lemma_geometry_is_told(a: Geometry, b: Geometry)
    requires
        geometry_is_plain(a),
        geometry_is_plain(b),
        geometry_text(a) == geometry_text(b),
    ensures
        geometry_model(a) == geometry_model(b),
{
    let none = Seq::<char>::empty();
    assert(geometry_text(a) + none == geometry_text(b) + none);
    lemma_geometry_ends(a, none, b, none);
}

} // verus!
