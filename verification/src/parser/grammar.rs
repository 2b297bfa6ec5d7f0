use vstd::prelude::*;

use crate::parser::scan::{
    char_is_whitespace, find_from, has_prefix_at, in_class, is_trimmed, lemma_find_from,
    lemma_skip_while, lemma_trim, lemma_trim_without_whitespace, skip_while, trim, CharClass,
};

verus! {

/// The mathematical value of an attribute: its name and its value as character sequences.
pub struct SpecAttribute {
    pub name: Seq<char>,
    pub value: Seq<char>,
}

/// The mathematical value of a tag's content.
pub enum SpecContent {
    Tags(Seq<SpecTag>),
    Text(Seq<char>),
}

/// The mathematical value of a tag.
pub struct SpecTag {
    pub name: Seq<char>,
    pub attributes: Seq<SpecAttribute>,
    pub content: Option<SpecContent>,
}

pub open spec fn comment_open() -> Seq<char> {
    seq!['<', '!', '-', '-']
}

pub open spec fn comment_close() -> Seq<char> {
    seq!['-', '-', '>']
}

pub open spec fn cdata_open() -> Seq<char> {
    seq!['<', '!', '[', 'C', 'D', 'A', 'T', 'A', '[']
}

pub open spec fn cdata_close() -> Seq<char> {
    seq![']', ']', '>']
}

pub open spec fn self_close() -> Seq<char> {
    seq!['/', '>']
}

pub open spec fn end_tag_open() -> Seq<char> {
    seq!['<', '/']
}

pub open spec fn gt() -> Seq<char> {
    seq!['>']
}

pub open spec fn equals() -> Seq<char> {
    seq!['=']
}

pub open spec fn quote() -> Seq<char> {
    seq!['"']
}

// Each parser below reads `s` from position `i` and gives back the position at which it
// stops, with what it produced. A parser that fails leaves the position where its failing
// step left it: a failed literal or character consumes nothing, but the steps before it
// stay consumed.

/// Skips leading whitespace.
pub open spec fn eat(s: Seq<char>, i: int) -> int {
    skip_while(s, i, CharClass::Whitespace)
}

/// One occurrence of the character `c`.
pub open spec fn take_char(s: Seq<char>, i: int, c: char) -> (int, bool) {
    if 0 <= i < s.len() && s[i] == c {
        (i + 1, true)
    } else {
        (i, false)
    }
}

/// The literal `lit`.
pub open spec fn take_lit(s: Seq<char>, i: int, lit: Seq<char>) -> (int, bool) {
    if has_prefix_at(s, i, lit) {
        (i + lit.len(), true)
    } else {
        (i, false)
    }
}

/// Everything up to the next occurrence of `lit`, which is consumed as well.
pub open spec fn take_until(s: Seq<char>, i: int, lit: Seq<char>) -> (int, Option<Seq<char>>) {
    match find_from(s, i, lit) {
        Some(k) => (k + lit.len(), Some(s.subrange(i, k))),
        None => (i, None),
    }
}

/// The longest run of characters of `class`; fails, consuming nothing, where that run is
/// empty.
pub open spec fn take_run(s: Seq<char>, i: int, class: CharClass) -> (int, Option<Seq<char>>) {
    let j = skip_while(s, i, class);
    if j == i {
        (i, None)
    } else {
        (j, Some(s.subrange(i, j)))
    }
}

/// The longest run of name characters (alphanumerics, `-` and `_`); fails where there is none.
/// A name is never empty: were it, the attributes of a tag would read on past its `>` up to
/// the next `=` of the document, and a keymap's root tag would swallow its children's
/// attributes.
pub open spec fn take_name(s: Seq<char>, i: int) -> (int, Option<Seq<char>>) {
    take_run(s, i, CharClass::NameChar)
}

/// `<!-- ... -->` after optional whitespace; produces the comment's body.
pub open spec fn parse_comment(s: Seq<char>, i: int) -> (int, Option<Seq<char>>) {
    let j = eat(s, i);
    let (k, open) = take_lit(s, j, comment_open());
    if !open {
        (k, None)
    } else {
        take_until(s, k, comment_close())
    }
}

/// As many comments as follow one another; never fails.
pub open spec fn parse_comments(s: Seq<char>, i: int) -> int
    decreases s.len() - i,
{
    let (k, r) = parse_comment(s, i);
    if r is Some && i < k <= s.len() {
        parse_comments(s, k)
    } else {
        k
    }
}

/// `"..."`; produces what stands between the quotes.
pub open spec fn parse_attribute_value(s: Seq<char>, i: int) -> (int, Option<Seq<char>>) {
    let (d, open) = take_char(s, i, '"');
    if !open {
        (d, None)
    } else {
        take_until(s, d, quote())
    }
}

/// `name = "value"`, each part after optional whitespace. Whatever stands between the name
/// and the first `=` after it is skipped.
pub open spec fn parse_attribute(s: Seq<char>, i: int) -> (int, Option<SpecAttribute>) {
    let a = eat(s, i);
    let (k, key) = take_name(s, a);
    if key is None {
        (k, None)
    } else {
        let (e, upto) = take_until(s, eat(s, k), equals());
        if upto is None {
            (e, None)
        } else {
            let (f, value) = parse_attribute_value(s, eat(s, e));
            match value {
                Some(v) => (f, Some(SpecAttribute { name: trim(key->0), value: v })),
                None => (f, None),
            }
        }
    }
}

/// As many attributes as follow one another; never fails.
pub open spec fn parse_attributes(s: Seq<char>, i: int) -> (int, Seq<SpecAttribute>)
    decreases s.len() - i,
{
    let (k, r) = parse_attribute(s, i);
    match r {
        Some(a) => if i < k <= s.len() {
            let (k2, rest) = parse_attributes(s, k);
            (k2, seq![a] + rest)
        } else {
            (k, seq![a])
        },
        None => (k, Seq::empty()),
    }
}

/// `<![CDATA[ ... ]]>` whose body holds no `]`; produces the body, trimmed.
pub open spec fn parse_cdata(s: Seq<char>, i: int) -> (int, Option<Seq<char>>) {
    let (k, open) = take_lit(s, i, cdata_open());
    if !open {
        (k, None)
    } else {
        let j = skip_while(s, k, CharClass::NotCloseBracket);
        let (m, close) = take_lit(s, j, cdata_close());
        if !close {
            (m, None)
        } else {
            (m, Some(trim(s.subrange(k, j))))
        }
    }
}

/// The tag that a text tag gives: without content where the text reads `/>`, else with the
/// text trimmed.
pub open spec fn text_tag(name: Seq<char>, attributes: Seq<SpecAttribute>, text: Seq<char>) -> SpecTag {
    if text == self_close() {
        SpecTag { name, attributes, content: None }
    } else {
        SpecTag { name, attributes, content: Some(SpecContent::Text(trim(text))) }
    }
}

/// `<name attributes/>`, or `<name attributes>text</name>` where the text holds no `<`.
/// The name of the closing tag is not compared with the opening one.
pub open spec fn parse_tag_with_text(s: Seq<char>, i: int) -> (int, Option<SpecTag>) {
    let p0 = parse_comments(s, i);
    let (p1, open) = take_char(s, p0, '<');
    let (p2, name) = take_name(s, p1);
    if !open {
        (p1, None)
    } else if name is None {
        (p2, None)
    } else {
        let (p3, attributes) = parse_attributes(s, p2);
        let (q, closed) = take_lit(s, p3, self_close());
        if closed {
            (q, Some(text_tag(name->0, attributes, self_close())))
        } else {
            let (e, gt_ok) = take_char(s, eat(s, p3), '>');
            let (t1, body) = take_run(s, eat(s, e), CharClass::NotOpenAngle);
            let (c1, end_ok) = take_lit(s, t1, end_tag_open());
            let (c2, end_name) = take_name(s, c1);
            let (c3, last_ok) = take_char(s, eat(s, c2), '>');
            if !gt_ok {
                (e, None)
            } else if body is None {
                (t1, None)
            } else if !end_ok {
                (c1, None)
            } else if end_name is None {
                (c2, None)
            } else if !last_ok {
                (c3, None)
            } else {
                (c3, Some(text_tag(name->0, attributes, body->0)))
            }
        }
    }
}

/// `</name>` where the `<` may be missing; the name is not checked.
pub open spec fn parse_end_tag(s: Seq<char>, i: int) -> (int, bool) {
    let (c1, lt) = take_char(s, i, '<');
    let (c2, slash) = take_char(s, c1, '/');
    let (c3, end_name) = take_name(s, c2);
    if !slash {
        (c2, false)
    } else if end_name is None {
        (c3, false)
    } else {
        take_lit(s, eat(s, c3), gt())
    }
}

/// `<name attributes> children </name>`; a tag with no children has no content.
pub open spec fn parse_tag_with_children(s: Seq<char>, i: int) -> (int, Option<SpecTag>)
    decreases s.len() - i, 1int,
{
    if !(0 <= i <= s.len()) {
        (i, None)
    } else {
        let p0 = parse_comments(s, i);
        let (p1, open) = take_char(s, eat(s, p0), '<');
        let (p2, name) = take_name(s, p1);
        let (p3, attributes) = parse_attributes(s, p2);
        let (p4, gt_ok) = take_lit(s, eat(s, p3), gt());
        if !open {
            (p1, None)
        } else if name is None {
            (p2, None)
        } else if !gt_ok {
            (p4, None)
        } else {
            let p5 = parse_comments(s, p4);
            proof {
                lemma_tag_head(s, i);
            }
            let (p6, children) = parse_children(s, p5);
            let (c, end_ok) = parse_end_tag(s, p6);
            if !end_ok {
                (c, None)
            } else if children.len() == 0 {
                (c, Some(SpecTag { name: name->0, attributes, content: None }))
            } else {
                (c, Some(SpecTag { name: name->0, attributes, content: Some(SpecContent::Tags(children)) }))
            }
        }
    }
}

/// A tag with text or, failing that, a tag with children, after optional whitespace.
pub open spec fn parse_xml(s: Seq<char>, i: int) -> (int, Option<SpecTag>)
    decreases s.len() - i, 2int,
{
    if !(0 <= i <= s.len()) {
        (i, None)
    } else {
        let j = eat(s, i);
        proof {
            lemma_skip_while(s, i, CharClass::Whitespace);
        }
        let (k, r) = parse_tag_with_text(s, j);
        if r is Some {
            (k, r)
        } else {
            parse_tag_with_children(s, j)
        }
    }
}

/// As many tags as follow one another; never fails.
pub open spec fn parse_children(s: Seq<char>, i: int) -> (int, Seq<SpecTag>)
    decreases s.len() - i, 3int,
{
    if !(0 <= i <= s.len()) {
        (i, Seq::empty())
    } else {
        let (k, r) = parse_xml(s, i);
        match r {
            Some(t) => if i < k <= s.len() {
                let (k2, rest) = parse_children(s, k);
                (k2, seq![t] + rest)
            } else {
                (k, seq![t])
            },
            None => (k, Seq::empty()),
        }
    }
}

// Bounds: every parser started inside `s` stops inside `s`, no earlier than it started,
// and every parser that succeeds on something that cannot be empty moves forward.

pub proof fn lemma_take_until(s: Seq<char>, i: int, lit: Seq<char>)
    requires
        0 <= i <= s.len(),
    ensures
        i <= take_until(s, i, lit).0 <= s.len(),
        take_until(s, i, lit).1 is Some ==> take_until(s, i, lit).0 >= i + lit.len(),
{
    lemma_find_from(s, i, lit);
}

pub proof fn lemma_comment(s: Seq<char>, i: int)
    requires
        0 <= i <= s.len(),
    ensures
        i <= parse_comment(s, i).0 <= s.len(),
        parse_comment(s, i).1 is Some ==> parse_comment(s, i).0 > i,
{
    lemma_skip_while(s, i, CharClass::Whitespace);
    let j = eat(s, i);
    if has_prefix_at(s, j, comment_open()) {
        lemma_take_until(s, j + 4, comment_close());
    }
}

pub proof fn lemma_comments(s: Seq<char>, i: int)
    requires
        0 <= i <= s.len(),
    ensures
        i <= parse_comments(s, i) <= s.len(),
    decreases s.len() - i,
{
    lemma_comment(s, i);
    let (k, r) = parse_comment(s, i);
    if r is Some && i < k <= s.len() {
        lemma_comments(s, k);
    }
}

pub proof fn lemma_take_run(s: Seq<char>, i: int, class: CharClass)
    requires
        0 <= i <= s.len(),
    ensures
        i <= take_run(s, i, class).0 <= s.len(),
        take_run(s, i, class).1 is Some ==> take_run(s, i, class).0 > i,
{
    lemma_skip_while(s, i, class);
}

pub proof fn lemma_eat(s: Seq<char>, i: int)
    requires
        0 <= i <= s.len(),
    ensures
        i <= eat(s, i) <= s.len(),
{
    lemma_skip_while(s, i, CharClass::Whitespace);
}

pub proof fn lemma_attribute(s: Seq<char>, i: int)
    requires
        0 <= i <= s.len(),
    ensures
        i <= parse_attribute(s, i).0 <= s.len(),
        parse_attribute(s, i).1 is Some ==> parse_attribute(s, i).0 > i,
{
    lemma_eat(s, i);
    let a = eat(s, i);
    lemma_take_run(s, a, CharClass::NameChar);
    let k = take_name(s, a).0;
    lemma_eat(s, k);
    lemma_take_until(s, eat(s, k), equals());
    let e = take_until(s, eat(s, k), equals()).0;
    lemma_eat(s, e);
    let c = eat(s, e);
    if take_char(s, c, '"').1 {
        lemma_take_until(s, c + 1, quote());
    }
}

pub proof fn lemma_attributes(s: Seq<char>, i: int)
    requires
        0 <= i <= s.len(),
    ensures
        i <= parse_attributes(s, i).0 <= s.len(),
    decreases s.len() - i,
{
    lemma_attribute(s, i);
    let (k, r) = parse_attribute(s, i);
    if r is Some && i < k <= s.len() {
        lemma_attributes(s, k);
    }
}

/// The part of a tag with children before its children: where it succeeds, it consumes at
/// least the opening `<`.
pub proof fn lemma_tag_head(s: Seq<char>, i: int)
    requires
        0 <= i <= s.len(),
    ensures
        ({
            let p0 = parse_comments(s, i);
            let (p1, open) = take_char(s, eat(s, p0), '<');
            let (p2, name) = take_name(s, p1);
            let (p3, attributes) = parse_attributes(s, p2);
            let (p4, gt_ok) = take_lit(s, eat(s, p3), gt());
            &&& i <= p1 <= s.len()
            &&& p1 <= p2 <= s.len()
            &&& p2 <= p4 <= s.len()
            &&& p4 <= parse_comments(s, p4) <= s.len()
            &&& open ==> i < p1
        }),
{
    lemma_comments(s, i);
    let p0 = parse_comments(s, i);
    lemma_eat(s, p0);
    let (p1, open) = take_char(s, eat(s, p0), '<');
    lemma_take_run(s, p1, CharClass::NameChar);
    let (p2, name) = take_name(s, p1);
    lemma_attributes(s, p2);
    let (p3, attributes) = parse_attributes(s, p2);
    lemma_eat(s, p3);
    let (p4, gt_ok) = take_lit(s, eat(s, p3), gt());
    lemma_comments(s, p4);
}

pub proof fn lemma_tag_with_text(s: Seq<char>, i: int)
    requires
        0 <= i <= s.len(),
    ensures
        i <= parse_tag_with_text(s, i).0 <= s.len(),
        parse_tag_with_text(s, i).1 is Some ==> parse_tag_with_text(s, i).0 > i,
{
    lemma_comments(s, i);
    let p0 = parse_comments(s, i);
    let (p1, open) = take_char(s, p0, '<');
    lemma_take_run(s, p1, CharClass::NameChar);
    let (p2, name) = take_name(s, p1);
    lemma_attributes(s, p2);
    let (p3, attributes) = parse_attributes(s, p2);
    lemma_eat(s, p3);
    let (e, gt_ok) = take_char(s, eat(s, p3), '>');
    lemma_eat(s, e);
    lemma_take_run(s, eat(s, e), CharClass::NotOpenAngle);
    let (t1, body) = take_run(s, eat(s, e), CharClass::NotOpenAngle);
    let (c1, end_ok) = take_lit(s, t1, end_tag_open());
    lemma_take_run(s, c1, CharClass::NameChar);
    let (c2, end_name) = take_name(s, c1);
    lemma_eat(s, c2);
}

pub proof fn lemma_end_tag(s: Seq<char>, i: int)
    requires
        0 <= i <= s.len(),
    ensures
        i <= parse_end_tag(s, i).0 <= s.len(),
{
    let (c1, lt) = take_char(s, i, '<');
    let (c2, slash) = take_char(s, c1, '/');
    lemma_take_run(s, c2, CharClass::NameChar);
    let (c3, end_name) = take_name(s, c2);
    lemma_eat(s, c3);
}

pub proof fn lemma_cdata(s: Seq<char>, i: int)
    requires
        0 <= i <= s.len(),
    ensures
        i <= parse_cdata(s, i).0 <= s.len(),
{
    let (k, open) = take_lit(s, i, cdata_open());
    lemma_skip_while(s, k, CharClass::NotCloseBracket);
}

pub proof fn lemma_xml(s: Seq<char>, i: int)
    requires
        0 <= i <= s.len(),
    ensures
        i <= parse_xml(s, i).0 <= s.len(),
        parse_xml(s, i).1 is Some ==> parse_xml(s, i).0 > i,
    decreases s.len() - i, 2int,
{
    lemma_skip_while(s, i, CharClass::Whitespace);
    let j = eat(s, i);
    lemma_tag_with_text(s, j);
    if parse_tag_with_text(s, j).1 is None {
        lemma_tag_with_children(s, j);
    }
}

pub proof fn lemma_tag_with_children(s: Seq<char>, i: int)
    requires
        0 <= i <= s.len(),
    ensures
        i <= parse_tag_with_children(s, i).0 <= s.len(),
        parse_tag_with_children(s, i).1 is Some ==> parse_tag_with_children(s, i).0 > i,
    decreases s.len() - i, 1int,
{
    lemma_tag_head(s, i);
    let p0 = parse_comments(s, i);
    let (p1, open) = take_char(s, eat(s, p0), '<');
    let (p2, name) = take_name(s, p1);
    let (p3, attributes) = parse_attributes(s, p2);
    let (p4, gt_ok) = take_lit(s, eat(s, p3), gt());
    if open && name is Some && gt_ok {
        let p5 = parse_comments(s, p4);
        lemma_children(s, p5);
        let (p6, children) = parse_children(s, p5);
        lemma_end_tag(s, p6);
    }
}

pub proof fn lemma_children(s: Seq<char>, i: int)
    requires
        0 <= i <= s.len(),
    ensures
        i <= parse_children(s, i).0 <= s.len(),
    decreases s.len() - i, 3int,
{
    lemma_xml(s, i);
    let (k, r) = parse_xml(s, i);
    if r is Some && i < k <= s.len() {
        lemma_children(s, k);
    }
}

/// Whether every character of `x` is a name character.
pub open spec fn all_name_chars(x: Seq<char>) -> bool {
    forall|k: int| 0 <= k < x.len() ==> in_class(CharClass::NameChar, #[trigger] x[k])
}

/// Whether `c` occurs nowhere in `x`.
pub open spec fn lacks(x: Seq<char>, c: char) -> bool {
    forall|k: int| 0 <= k < x.len() ==> #[trigger] x[k] != c
}

/// An attribute as the parser produces it: a name of name characters and a value without
/// a double quote.
pub open spec fn well_formed_attribute(a: SpecAttribute) -> bool {
    all_name_chars(a.name) && lacks(a.value, '"')
}

/// A tag as the parser produces it: a nonempty name of name characters, well-formed
/// attributes, and content that is either nothing, text without `<` that neither starts nor
/// ends with whitespace, or a nonempty list of such tags.
pub open spec fn well_formed_tag(t: SpecTag) -> bool
    decreases t,
{
    &&& t.name.len() > 0
    &&& all_name_chars(t.name)
    &&& forall|k: int| 0 <= k < t.attributes.len() ==> well_formed_attribute(#[trigger] t.attributes[k])
    &&& match t.content {
        None => true,
        Some(SpecContent::Text(x)) => lacks(x, '<') && is_trimmed(x),
        Some(SpecContent::Tags(children)) => children.len() > 0 && forall|k: int|
            0 <= k < children.len() ==> well_formed_tag(#[trigger] children[k]),
    }
}

pub proof fn lemma_take_until_lacks(s: Seq<char>, i: int, c: char)
    requires
        0 <= i <= s.len(),
    ensures
        take_until(s, i, seq![c]).1 matches Some(v) ==> lacks(v, c),
{
    lemma_find_from(s, i, seq![c]);
    if let Some(k) = find_from(s, i, seq![c]) {
        let v = s.subrange(i, k);
        assert forall|m: int| 0 <= m < v.len() implies #[trigger] v[m] != c by {
            if v[m] == c {
                assert(s.subrange(i + m, i + m + 1) =~= seq![c]);
                assert(has_prefix_at(s, i + m, seq![c]));
            }
        }
    }
}

pub proof fn lemma_run_chars(s: Seq<char>, i: int, class: CharClass)
    requires
        0 <= i <= s.len(),
    ensures
        take_run(s, i, class).1 matches Some(v) ==> v.len() > 0 && forall|k: int|
            0 <= k < v.len() ==> in_class(class, #[trigger] v[k]),
{
    lemma_skip_while(s, i, class);
    if let Some(v) = take_run(s, i, class).1 {
        assert forall|k: int| 0 <= k < v.len() implies in_class(class, #[trigger] v[k]) by {
            assert(v[k] == s[i + k]);
        }
    }
}

pub proof fn lemma_trim_keeps(x: Seq<char>, class: CharClass)
    requires
        forall|k: int| 0 <= k < x.len() ==> in_class(class, #[trigger] x[k]),
    ensures
        forall|k: int| 0 <= k < trim(x).len() ==> in_class(class, #[trigger] trim(x)[k]),
        is_trimmed(trim(x)),
{
    lemma_trim(x);
    assert forall|k: int| 0 <= k < trim(x).len() implies in_class(class, #[trigger] trim(x)[k]) by {
        let j = choose|j: int| 0 <= j < x.len() && trim(x)[k] == x[j];
        assert(in_class(class, x[j]));
    }
}

pub proof fn lemma_attribute_well_formed(s: Seq<char>, i: int)
    requires
        0 <= i <= s.len(),
    ensures
        parse_attribute(s, i).1 matches Some(a) ==> well_formed_attribute(a),
{
    lemma_skip_while(s, i, CharClass::Whitespace);
    let a = eat(s, i);
    lemma_run_chars(s, a, CharClass::NameChar);
    lemma_take_run(s, a, CharClass::NameChar);
    let (k, key) = take_name(s, a);
    if let Some(key) = key {
        lemma_trim_keeps(key, CharClass::NameChar);
        lemma_skip_while(s, k, CharClass::Whitespace);
        lemma_take_until(s, eat(s, k), equals());
        let e = take_until(s, eat(s, k), equals()).0;
        lemma_skip_while(s, e, CharClass::Whitespace);
        let c = eat(s, e);
        if take_char(s, c, '"').1 {
            lemma_take_until_lacks(s, c + 1, '"');
            assert(quote() =~= seq!['"']);
        }
    }
}

pub proof fn lemma_attributes_well_formed(s: Seq<char>, i: int)
    requires
        0 <= i <= s.len(),
    ensures
        forall|k: int| 0 <= k < parse_attributes(s, i).1.len() ==> well_formed_attribute(
            #[trigger] parse_attributes(s, i).1[k],
        ),
    decreases s.len() - i,
{
    lemma_attribute(s, i);
    lemma_attribute_well_formed(s, i);
    let (k, r) = parse_attribute(s, i);
    if r is Some && i < k <= s.len() {
        lemma_attributes_well_formed(s, k);
        let rest = parse_attributes(s, k).1;
        assert forall|m: int| 0 <= m < parse_attributes(s, i).1.len() implies well_formed_attribute(
            #[trigger] parse_attributes(s, i).1[m],
        ) by {
            if m > 0 {
                assert(parse_attributes(s, i).1[m] == rest[m - 1]);
            }
        }
    }
}

pub proof fn lemma_text_tag_well_formed(name: Seq<char>, attributes: Seq<SpecAttribute>, body: Seq<char>)
    requires
        name.len() > 0,
        all_name_chars(name),
        forall|k: int| 0 <= k < attributes.len() ==> well_formed_attribute(#[trigger] attributes[k]),
        forall|k: int| 0 <= k < body.len() ==> in_class(CharClass::NotOpenAngle, #[trigger] body[k]),
    ensures
        well_formed_tag(text_tag(name, attributes, body)),
{
    lemma_trim_keeps(body, CharClass::NotOpenAngle);
}

pub proof fn lemma_tag_with_text_well_formed(s: Seq<char>, i: int)
    requires
        0 <= i <= s.len(),
    ensures
        parse_tag_with_text(s, i).1 matches Some(t) ==> well_formed_tag(t),
{
    lemma_comments(s, i);
    let p0 = parse_comments(s, i);
    let (p1, open) = take_char(s, p0, '<');
    lemma_run_chars(s, p1, CharClass::NameChar);
    lemma_take_run(s, p1, CharClass::NameChar);
    let (p2, name) = take_name(s, p1);
    if open && name is Some {
        lemma_attributes_well_formed(s, p2);
        lemma_attributes(s, p2);
        let (p3, attributes) = parse_attributes(s, p2);
        lemma_eat(s, p3);
        let (e, gt_ok) = take_char(s, eat(s, p3), '>');
        lemma_eat(s, e);
        lemma_run_chars(s, eat(s, e), CharClass::NotOpenAngle);
        let (t1, body) = take_run(s, eat(s, e), CharClass::NotOpenAngle);
        lemma_text_tag_well_formed(name->0, attributes, self_close());
        if let Some(b) = body {
            lemma_text_tag_well_formed(name->0, attributes, b);
        }
    }
}

pub proof fn lemma_xml_well_formed(s: Seq<char>, i: int)
    requires
        0 <= i <= s.len(),
    ensures
        parse_xml(s, i).1 matches Some(t) ==> well_formed_tag(t),
    decreases s.len() - i, 2int,
{
    lemma_skip_while(s, i, CharClass::Whitespace);
    let j = eat(s, i);
    lemma_tag_with_text_well_formed(s, j);
    if parse_tag_with_text(s, j).1 is None {
        lemma_tag_with_children_well_formed(s, j);
    }
}

pub proof fn lemma_tag_with_children_well_formed(s: Seq<char>, i: int)
    requires
        0 <= i <= s.len(),
    ensures
        parse_tag_with_children(s, i).1 matches Some(t) ==> well_formed_tag(t),
    decreases s.len() - i, 1int,
{
    lemma_tag_head(s, i);
    let p0 = parse_comments(s, i);
    let (p1, open) = take_char(s, eat(s, p0), '<');
    lemma_run_chars(s, p1, CharClass::NameChar);
    let (p2, name) = take_name(s, p1);
    if open && name is Some {
        lemma_attributes_well_formed(s, p2);
        let (p3, attributes) = parse_attributes(s, p2);
        let (p4, gt_ok) = take_lit(s, eat(s, p3), gt());
        if gt_ok {
            let p5 = parse_comments(s, p4);
            lemma_children_well_formed(s, p5);
            let (p6, children) = parse_children(s, p5);
            if children.len() > 0 {
                let t = SpecTag { name: name->0, attributes, content: Some(SpecContent::Tags(children)) };
                assert(well_formed_tag(t));
            } else {
                let t = SpecTag { name: name->0, attributes, content: None };
                assert(well_formed_tag(t));
            }
        }
    }
}

pub proof fn lemma_children_well_formed(s: Seq<char>, i: int)
    requires
        0 <= i <= s.len(),
    ensures
        forall|k: int| 0 <= k < parse_children(s, i).1.len() ==> well_formed_tag(
            #[trigger] parse_children(s, i).1[k],
        ),
    decreases s.len() - i, 3int,
{
    lemma_xml(s, i);
    lemma_xml_well_formed(s, i);
    let (k, r) = parse_xml(s, i);
    if r is Some && i < k <= s.len() {
        lemma_children_well_formed(s, k);
        let rest = parse_children(s, k).1;
        assert forall|m: int| 0 <= m < parse_children(s, i).1.len() implies well_formed_tag(
            #[trigger] parse_children(s, i).1[m],
        ) by {
            if m > 0 {
                assert(parse_children(s, i).1[m] == rest[m - 1]);
            }
        }
    }
}

/// A run of name characters is its own trimmed form: the name an attribute parser produces
/// is the run it read, spacing around it aside.
pub proof fn law_names_are_untrimmed(x: Seq<char>)
    requires
        all_name_chars(x),
    ensures
        trim(x) == x,
{
    assert forall|k: int| 0 <= k < x.len() implies !char_is_whitespace(#[trigger] x[k]) by {
        assert(in_class(CharClass::NameChar, x[k]));
    }
    lemma_trim_without_whitespace(x);
}

/// Skipping whitespace twice skips no more than once.
proof fn lemma_eat_twice(s: Seq<char>, i: int)
    requires
        0 <= i <= s.len(),
    ensures
        eat(s, eat(s, i)) == eat(s, i),
{
    lemma_skip_while(s, i, CharClass::Whitespace);
}

/// Reading comments after skipping whitespace reads the same comments: each comment skips
/// the whitespace before it anyway.
proof fn lemma_comments_after_eat(s: Seq<char>, i: int)
    requires
        0 <= i <= s.len(),
    ensures
        parse_comment(s, eat(s, i)) == parse_comment(s, i),
        parse_comments(s, eat(s, i)) == parse_comments(s, i),
{
    lemma_eat_twice(s, i);
    lemma_eat(s, i);
    lemma_comment(s, eat(s, i));
}

/// An XML comment before a tag, and the whitespace around it, are skipped: where a comment
/// can be read from position `i`, reading a tag from `i` (one with text, one with children,
/// or either) gives what reading it from the end of that comment gives.
pub proof fn law_comments_before_tags_are_skipped(s: Seq<char>, i: int)
    requires
        0 <= i <= s.len(),
        parse_comment(s, i).1 is Some,
    ensures
        parse_tag_with_children(s, i) == parse_tag_with_children(s, parse_comment(s, i).0),
        parse_tag_with_text(s, i) == parse_tag_with_text(s, parse_comment(s, i).0),
        parse_xml(s, i) == parse_xml(s, parse_comment(s, i).0),
{
    let k = parse_comment(s, i).0;
    lemma_comment(s, i);
    assert(parse_comments(s, i) == parse_comments(s, k));
    lemma_comments_after_eat(s, i);
    lemma_comments_after_eat(s, k);
    lemma_eat(s, i);
    lemma_eat(s, k);
    let j = eat(s, i);
    let j2 = eat(s, k);
    assert(parse_comments(s, j) == parse_comments(s, j2));
    assert(parse_tag_with_text(s, j) == parse_tag_with_text(s, j2));
    assert(parse_tag_with_children(s, j) == parse_tag_with_children(s, j2));
}

/// The whitespace that the parsers skip around tags, attributes and text is exactly the
/// Unicode `White_Space` characters: tab (U+0009), line feed, vertical tab, form feed, carriage return,
/// space, next line, no-break space, the Ogham space mark, en quad to hair space, the line
/// and paragraph separators, the narrow no-break space, the medium mathematical space and the
/// ideographic space. So a tab-indented document reads like a space-indented one: skipping
/// whitespace from one of these characters goes on past it, and from any other character
/// stays where it is.
pub proof fn law_skipped_whitespace_is_unicode_white_space(s: Seq<char>, i: int)
    requires
        0 <= i < s.len(),
    ensures
        ({
            let c = s[i];
            let u = c as u32;
            let white = (0x09 <= u <= 0x0d) || u == 0x20 || u == 0x85 || u == 0xa0 || u == 0x1680 || (0x2000
                <= u <= 0x200a) || u == 0x2028 || u == 0x2029 || u == 0x202f || u == 0x205f || u == 0x3000;
            &&& white ==> eat(s, i) == eat(s, i + 1)
            &&& !white ==> eat(s, i) == i
        }),
{
}

} // verus!
