use vstd::prelude::*;
use vstd::string::StrSliceExecFns;

use crate::parser::grammar::{
    cdata_close, cdata_open, comment_close, comment_open, eat, end_tag_open, equals, gt, lemma_attribute,
    lemma_cdata, lemma_children, lemma_comment, lemma_comments, lemma_end_tag, lemma_tag_head,
    lemma_tag_with_children, lemma_tag_with_text, lemma_take_until, lemma_xml, parse_attribute,
    parse_attribute_value, parse_attributes, parse_cdata, parse_children, parse_comment,
    parse_comments, parse_end_tag, parse_tag_with_children, parse_tag_with_text, parse_xml,
    lemma_attribute_well_formed, lemma_tag_with_children_well_formed, lemma_tag_with_text_well_formed,
    lemma_xml_well_formed, well_formed_attribute, well_formed_tag, quote, self_close, take_char, take_lit, take_name, take_run, take_until, text_tag, SpecAttribute,
    SpecContent, SpecTag,
};
use crate::parser::scan::{
    chars_of, same_text, find_at, lemma_skip_while, lemma_trim_bounds, matches_at, skip_class, skip_while,
    trim, trim_bounds, trim_range, CharClass,
};

verus! {

/// A `name="value"` pair of a tag.
#[derive(Debug, PartialEq)]
pub struct Attribute<'a> {
    pub name: &'a str,
    pub value: &'a str,
}

/// What a tag holds between its opening and its closing tag.
#[derive(Debug, PartialEq)]
pub enum NodeContent<'a> {
    Tags(Vec<XmlTag<'a>>),
    Text(&'a str),
}

/// An XML element: its name, its attributes in document order, and its content, if any.
#[derive(Debug, PartialEq)]
pub struct XmlTag<'a> {
    pub name: &'a str,
    pub attributes: Vec<Attribute<'a>>,
    pub content: Option<NodeContent<'a>>,
}

impl<'a> View for Attribute<'a> {
    type V = SpecAttribute;

    open spec fn view(&self) -> SpecAttribute {
        SpecAttribute { name: self.name@, value: self.value@ }
    }
}

pub open spec fn attributes_view<'a>(v: Seq<Attribute<'a>>) -> Seq<SpecAttribute> {
    v.map_values(|a: Attribute<'a>| a@)
}

/// The mathematical value of a tag, through its whole subtree.
pub open spec fn tag_view<'a>(t: XmlTag<'a>) -> SpecTag
    decreases t,
{
    SpecTag {
        name: t.name@,
        attributes: attributes_view(t.attributes@),
        content: match t.content {
            None => None,
            Some(NodeContent::Text(s)) => Some(SpecContent::Text(s@)),
            Some(NodeContent::Tags(v)) => Some(
                SpecContent::Tags(
                    Seq::new(
                        v.len() as nat,
                        |i: int|
                            if 0 <= i < v.len() {
                                tag_view(v[i])
                            } else {
                                SpecTag { name: Seq::empty(), attributes: Seq::empty(), content: None }
                            },
                    ),
                ),
            ),
        },
    }
}

pub open spec fn tags_view<'a>(v: Seq<XmlTag<'a>>) -> Seq<SpecTag> {
    v.map_values(|t: XmlTag<'a>| tag_view(t))
}

impl<'a> View for XmlTag<'a> {
    type V = SpecTag;

    open spec fn view(&self) -> SpecTag {
        tag_view(*self)
    }
}

pub proof fn lemma_children_view<'a>(t: XmlTag<'a>, v: Vec<XmlTag<'a>>)
    requires
        t.content == Some(NodeContent::Tags(v)),
    ensures
        tag_view(t).content == Some(SpecContent::Tags(tags_view(v@))),
{
    match tag_view(t).content {
        Some(SpecContent::Tags(w)) => {
            assert(w =~= tags_view(v@));
        },
        _ => {},
    }
}

/// The value of the first attribute in `attrs` whose name is `name`.
pub open spec fn find_attribute(attrs: Seq<SpecAttribute>, name: Seq<char>) -> Option<Seq<char>>
    decreases attrs.len(),
{
    if attrs.len() == 0 {
        None
    } else if attrs[0].name == name {
        Some(attrs[0].value)
    } else {
        find_attribute(attrs.drop_first(), name)
    }
}

/// The child tags of `t`: those it holds, or none where it holds text or nothing.
pub open spec fn tag_children<'a>(t: XmlTag<'a>) -> Seq<XmlTag<'a>> {
    match t.content {
        Some(NodeContent::Tags(v)) => v@,
        _ => Seq::empty(),
    }
}

/// The text of `t`, where it holds text.
pub open spec fn tag_text<'a>(t: XmlTag<'a>) -> Option<&'a str> {
    match t.content {
        Some(NodeContent::Text(x)) => Some(x),
        _ => None,
    }
}

impl<'a> Attribute<'a> {
    pub fn new(name: &'a str, value: &'a str) -> (r: Self)
        ensures
            r.name == name,
            r.value == value,
    {
        Self { name, value }
    }
}

impl<'a> XmlTag<'a> {
    /// A tag that holds child tags.
    pub fn with_children(name: &'a str, attributes: Vec<Attribute<'a>>, children: Vec<XmlTag<'a>>) -> (r: XmlTag<'a>)
        ensures
            r.name == name,
            r.attributes == attributes,
            r.content == Some(NodeContent::Tags(children)),
    {
        XmlTag { name, attributes, content: Some(NodeContent::Tags(children)) }
    }

    /// A tag that holds text.
    pub fn with_text(name: &'a str, attributes: Vec<Attribute<'a>>, text: &'a str) -> (r: XmlTag<'a>)
        ensures
            r.name == name,
            r.attributes == attributes,
            r.content == Some(NodeContent::Text(text)),
    {
        XmlTag { name, attributes, content: Some(NodeContent::Text(text)) }
    }

    /// A tag without content.
    pub fn new(name: &'a str, attributes: Vec<Attribute<'a>>) -> (r: XmlTag<'a>)
        ensures
            r.name == name,
            r.attributes == attributes,
            r.content is None,
    {
        XmlTag { name, attributes, content: None }
    }

    /// The child tags; empty unless the tag holds child tags.
    pub fn children(&self) -> (r: &[XmlTag<'a>])
        ensures
            r@ == tag_children(*self),
    {
        match &self.content {
            Some(NodeContent::Tags(children)) => children.as_slice(),
            _ => &[],
        }
    }

    /// The text, if the tag holds text.
    pub fn text(&self) -> (r: Option<&'a str>)
        ensures
            r == tag_text(*self),
    {
        match &self.content {
            Some(NodeContent::Text(text)) => Some(*text),
            _ => None,
        }
    }

    /// The value of the first attribute named `name`, if there is one.
    pub fn attribute(&self, name: &str) -> (r: Option<&'a str>)
        ensures
            match r {
                Some(v) => find_attribute(attributes_view(self.attributes@), name@) == Some(v@),
                None => find_attribute(attributes_view(self.attributes@), name@) is None,
            },
    {
        let mut i: usize = 0;
        proof {
            assert(attributes_view(self.attributes@).skip(0) =~= attributes_view(self.attributes@));
        }
        while i < self.attributes.len()
            invariant
                i <= self.attributes@.len(),
                find_attribute(attributes_view(self.attributes@), name@) == find_attribute(
                    attributes_view(self.attributes@).skip(i as int),
                    name@,
                ),
            decreases self.attributes@.len() - i,
        {
            let a = &self.attributes[i];
            proof {
                let rest = attributes_view(self.attributes@).skip(i as int);
                assert(rest.drop_first() =~= attributes_view(self.attributes@).skip(i + 1));
            }
            if same_text(a.name, name) {
                return Some(a.value);
            }
            i = i + 1;
        }
        None
    }

    /// The value of the first attribute named `name`, or the empty string if there is none.
    pub fn has_attribute(&self, name: &str) -> (r: &'a str)
        ensures
            match find_attribute(attributes_view(self.attributes@), name@) {
                Some(v) => r@ == v,
                None => r@ == Seq::<char>::empty(),
            },
    {
        match self.attribute(name) {
            Some(v) => v,
            None => {
                let e = "";
                proof {
                    reveal_strlit("");
                }
                e
            },
        }
    }
}

/// Whether `x` is a final stretch of `s`.
pub open spec fn is_suffix(x: Seq<char>, s: Seq<char>) -> bool {
    x.len() <= s.len() && s.subrange(s.len() - x.len(), s.len() as int) == x
}

/// What a parser gives back: the input that it left unread, and what it produced, if it
/// succeeded.
pub struct ParseResult<'a, T> {
    pub state: &'a str,
    pub result: Option<T>,
}

pub open spec fn str_opt_view(o: Option<&str>) -> Option<Seq<char>> {
    match o {
        Some(x) => Some(x@),
        None => None,
    }
}

pub open spec fn attribute_opt_view<'a>(o: Option<Attribute<'a>>) -> Option<SpecAttribute> {
    match o {
        Some(a) => Some(a@),
        None => None,
    }
}

pub open spec fn tag_opt_view<'a>(o: Option<XmlTag<'a>>) -> Option<SpecTag> {
    match o {
        Some(t) => Some(tag_view(t)),
        None => None,
    }
}

fn lit_comment_open() -> (r: &'static [char])
    ensures
        r@ == comment_open(),
{
    let r: &[char] = &['<', '!', '-', '-'];
    assert(r@ =~= comment_open());
    r
}

fn lit_comment_close() -> (r: &'static [char])
    ensures
        r@ == comment_close(),
{
    let r: &[char] = &['-', '-', '>'];
    assert(r@ =~= comment_close());
    r
}

fn lit_cdata_open() -> (r: &'static [char])
    ensures
        r@ == cdata_open(),
{
    let r: &[char] = &['<', '!', '[', 'C', 'D', 'A', 'T', 'A', '['];
    assert(r@ =~= cdata_open());
    r
}

fn lit_cdata_close() -> (r: &'static [char])
    ensures
        r@ == cdata_close(),
{
    let r: &[char] = &[']', ']', '>'];
    assert(r@ =~= cdata_close());
    r
}

fn lit_self_close() -> (r: &'static [char])
    ensures
        r@ == self_close(),
{
    let r: &[char] = &['/', '>'];
    assert(r@ =~= self_close());
    r
}

fn lit_end_tag_open() -> (r: &'static [char])
    ensures
        r@ == end_tag_open(),
{
    let r: &[char] = &['<', '/'];
    assert(r@ =~= end_tag_open());
    r
}

fn lit_gt() -> (r: &'static [char])
    ensures
        r@ == gt(),
{
    let r: &[char] = &['>'];
    assert(r@ =~= gt());
    r
}

fn lit_equals() -> (r: &'static [char])
    ensures
        r@ == equals(),
{
    let r: &[char] = &['='];
    assert(r@ =~= equals());
    r
}

fn lit_quote() -> (r: &'static [char])
    ensures
        r@ == quote(),
{
    let r: &[char] = &['"'];
    assert(r@ =~= quote());
    r
}

/// The part of `text` between character positions `a` and `b`.
fn slice<'a>(text: &'a str, a: usize, b: usize) -> (r: &'a str)
    requires
        a <= b <= text@.len(),
    ensures
        r@ == text@.subrange(a as int, b as int),
{
    text.substring_char(a, b)
}

fn eat_at(v: &Vec<char>, i: usize) -> (r: usize)
    requires
        i <= v@.len(),
    ensures
        r == eat(v@, i as int),
        i <= r <= v@.len(),
{
    skip_class(v, i, CharClass::Whitespace)
}

fn take_char_at(v: &Vec<char>, i: usize, c: char) -> (r: (usize, bool))
    requires
        i <= v@.len(),
    ensures
        r.0 == take_char(v@, i as int, c).0,
        r.1 == take_char(v@, i as int, c).1,
        i <= r.0 <= v@.len(),
{
    if i < v.len() && v[i] == c {
        (i + 1, true)
    } else {
        (i, false)
    }
}

fn take_lit_at(v: &Vec<char>, i: usize, lit: &[char]) -> (r: (usize, bool))
    requires
        i <= v@.len(),
    ensures
        r.0 == take_lit(v@, i as int, lit@).0,
        r.1 == take_lit(v@, i as int, lit@).1,
        i <= r.0 <= v@.len(),
{
    let n = v.len();
    if matches_at(v, i, lit) {
        assert(i + lit@.len() <= n);
        (i + lit.len(), true)
    } else {
        (i, false)
    }
}

/// Returns the stop position and, on success, the bounds of what was read before `lit`.
fn take_until_at(v: &Vec<char>, i: usize, lit: &[char]) -> (r: (usize, Option<usize>))
    requires
        i <= v@.len(),
    ensures
        r.0 == take_until(v@, i as int, lit@).0,
        i <= r.0 <= v@.len(),
        match r.1 {
            Some(k) => i <= k <= v@.len() && take_until(v@, i as int, lit@).1 == Some(
                v@.subrange(i as int, k as int),
            ),
            None => take_until(v@, i as int, lit@).1 is None,
        },
{
    proof {
        lemma_take_until(v@, i as int, lit@);
        crate::parser::scan::lemma_find_from(v@, i as int, lit@);
    }
    let n = v.len();
    match find_at(v, i, lit) {
        Some(k) => {
            assert(k + lit@.len() <= n);
            (k + lit.len(), Some(k))
        },
        None => (i, None),
    }
}

/// Returns where the run of `class` characters ends, and whether it is nonempty.
fn take_run_at(v: &Vec<char>, i: usize, class: CharClass) -> (r: (usize, bool))
    requires
        i <= v@.len(),
    ensures
        r.0 == take_run(v@, i as int, class).0,
        r.1 == take_run(v@, i as int, class).1 is Some,
        r.1 ==> take_run(v@, i as int, class).1 == Some(v@.subrange(i as int, r.0 as int)),
        i <= r.0 <= v@.len(),
{
    let j = skip_class(v, i, class);
    (j, j != i)
}

fn comment_at(v: &Vec<char>, i: usize) -> (r: (usize, Option<usize>))
    requires
        i <= v@.len(),
    ensures
        r.0 == parse_comment(v@, i as int).0,
        i <= r.0 <= v@.len(),
        match r.1 {
            Some(k) => {
                &&& eat(v@, i as int) + 4 <= k <= v@.len()
                &&& parse_comment(v@, i as int).1 == Some(v@.subrange(eat(v@, i as int) + 4, k as int))
            },
            None => parse_comment(v@, i as int).1 is None,
        },
{
    let j = eat_at(v, i);
    let (k, open) = take_lit_at(v, j, lit_comment_open());
    if !open {
        (k, None)
    } else {
        take_until_at(v, k, lit_comment_close())
    }
}

fn comments_at(v: &Vec<char>, i: usize) -> (r: usize)
    requires
        i <= v@.len(),
    ensures
        r == parse_comments(v@, i as int),
        i <= r <= v@.len(),
{
    let mut k = i;
    loop
        invariant
            i <= k <= v@.len(),
            parse_comments(v@, k as int) == parse_comments(v@, i as int),
        decreases v@.len() - k,
    {
        proof {
            lemma_comment(v@, k as int);
        }
        let (next, r) = comment_at(v, k);
        if r.is_none() {
            return next;
        }
        k = next;
    }
}

fn attribute_value_at<'a>(text: &'a str, v: &Vec<char>, i: usize) -> (r: (usize, Option<&'a str>))
    requires
        v@ == text@,
        i <= v@.len(),
    ensures
        r.0 == parse_attribute_value(v@, i as int).0,
        i <= r.0 <= v@.len(),
        str_opt_view(r.1) == parse_attribute_value(v@, i as int).1,
{
    let (d, open) = take_char_at(v, i, '"');
    if !open {
        return (d, None);
    }
    let (f, upto) = take_until_at(v, d, lit_quote());
    match upto {
        Some(k) => (f, Some(slice(text, d, k))),
        None => (f, None),
    }
}

fn attribute_at<'a>(text: &'a str, v: &Vec<char>, i: usize) -> (r: (usize, Option<Attribute<'a>>))
    requires
        v@ == text@,
        i <= v@.len(),
    ensures
        r.0 == parse_attribute(v@, i as int).0,
        i <= r.0 <= v@.len(),
        attribute_opt_view(r.1) == parse_attribute(v@, i as int).1,
{
    let a = eat_at(v, i);
    let (k, has_key) = take_run_at(v, a, CharClass::NameChar);
    if !has_key {
        return (k, None);
    }
    let (key_start, key_end) = trim_range(v, a, k);
    let b = eat_at(v, k);
    let (e, upto) = take_until_at(v, b, lit_equals());
    if upto.is_none() {
        return (e, None);
    }
    let c = eat_at(v, e);
    let (f, value) = attribute_value_at(text, v, c);
    match value {
        Some(val) => {
            let name = slice(text, key_start, key_end);
            proof {
                let key = v@.subrange(a as int, k as int);
                lemma_trim_bounds(key);
                assert(name@ =~= trim(key));
            }
            (f, Some(Attribute { name, value: val }))
        },
        None => (f, None),
    }
}

fn attributes_at<'a>(text: &'a str, v: &Vec<char>, i: usize) -> (r: (usize, Vec<Attribute<'a>>))
    requires
        v@ == text@,
        i <= v@.len(),
    ensures
        r.0 == parse_attributes(v@, i as int).0,
        i <= r.0 <= v@.len(),
        attributes_view(r.1@) == parse_attributes(v@, i as int).1,
{
    let mut found: Vec<Attribute<'a>> = Vec::new();
    let mut k = i;
    loop
        invariant
            v@ == text@,
            i <= k <= v@.len(),
            parse_attributes(v@, k as int).0 == parse_attributes(v@, i as int).0,
            attributes_view(found@) + parse_attributes(v@, k as int).1 == parse_attributes(v@, i as int).1,
        decreases v@.len() - k,
    {
        proof {
            lemma_attribute(v@, k as int);
        }
        let (next, r) = attribute_at(text, v, k);
        match r {
            Some(a) => {
                let ghost before = found@;
                found.push(a);
                proof {
                    assert(attributes_view(found@) =~= attributes_view(before) + seq![a@]);
                    let rest = parse_attributes(v@, next as int).1;
                    assert(attributes_view(found@) + rest =~= attributes_view(before) + (seq![a@] + rest));
                }
                k = next;
            },
            None => {
                proof {
                    assert(attributes_view(found@) + Seq::<SpecAttribute>::empty() =~= attributes_view(found@));
                }
                return (next, found);
            },
        }
    }
}

fn cdata_at<'a>(text: &'a str, v: &Vec<char>, i: usize) -> (r: (usize, Option<&'a str>))
    requires
        v@ == text@,
        i <= v@.len(),
    ensures
        r.0 == parse_cdata(v@, i as int).0,
        i <= r.0 <= v@.len(),
        str_opt_view(r.1) == parse_cdata(v@, i as int).1,
{
    let (k, open) = take_lit_at(v, i, lit_cdata_open());
    if !open {
        return (k, None);
    }
    let j = skip_class(v, k, CharClass::NotCloseBracket);
    let (m, close) = take_lit_at(v, j, lit_cdata_close());
    if !close {
        return (m, None);
    }
    let (a, b) = trim_range(v, k, j);
    let body = slice(text, a, b);
    proof {
        lemma_trim_bounds(v@.subrange(k as int, j as int));
        assert(body@ =~= trim(v@.subrange(k as int, j as int)));
    }
    (m, Some(body))
}

fn tag_with_text_at<'a>(text: &'a str, v: &Vec<char>, i: usize) -> (r: (usize, Option<XmlTag<'a>>))
    requires
        v@ == text@,
        i <= v@.len(),
    ensures
        r.0 == parse_tag_with_text(v@, i as int).0,
        i <= r.0 <= v@.len(),
        tag_opt_view(r.1) == parse_tag_with_text(v@, i as int).1,
{
    let p0 = comments_at(v, i);
    let (p1, open) = take_char_at(v, p0, '<');
    if !open {
        return (p1, None);
    }
    let (p2, has_name) = take_run_at(v, p1, CharClass::NameChar);
    if !has_name {
        return (p2, None);
    }
    let name = slice(text, p1, p2);
    let (p3, attributes) = attributes_at(text, v, p2);
    let (q, closed) = take_lit_at(v, p3, lit_self_close());
    if closed {
        let tag = XmlTag::new(name, attributes);
        assert(tag_view(tag) == text_tag(name@, attributes_view(attributes@), self_close()));
        return (q, Some(tag));
    }
    let (e, gt_ok) = take_char_at(v, eat_at(v, p3), '>');
    if !gt_ok {
        return (e, None);
    }
    let t0 = eat_at(v, e);
    let (t1, has_body) = take_run_at(v, t0, CharClass::NotOpenAngle);
    if !has_body {
        return (t1, None);
    }
    let (c1, end_ok) = take_lit_at(v, t1, lit_end_tag_open());
    if !end_ok {
        return (c1, None);
    }
    let (c2, has_end_name) = take_run_at(v, c1, CharClass::NameChar);
    if !has_end_name {
        return (c2, None);
    }
    let (c3, last_ok) = take_char_at(v, eat_at(v, c2), '>');
    if !last_ok {
        return (c3, None);
    }
    let ghost body = v@.subrange(t0 as int, t1 as int);
    if t1 - t0 == 2 && matches_at(v, t0, lit_self_close()) {
        assert(body =~= self_close());
        let tag = XmlTag::new(name, attributes);
        assert(tag_view(tag) == text_tag(name@, attributes_view(attributes@), body));
        (c3, Some(tag))
    } else {
        assert(body != self_close()) by {
            if body == self_close() {
                assert(v@.subrange(t0 as int, t0 + 2) =~= body);
            }
        }
        let (a, b) = trim_range(v, t0, t1);
        let content = slice(text, a, b);
        proof {
            lemma_trim_bounds(body);
            assert(content@ =~= trim(body));
        }
        let tag = XmlTag::with_text(name, attributes, content);
        assert(tag_view(tag) == text_tag(name@, attributes_view(attributes@), body));
        (c3, Some(tag))
    }
}

fn end_tag_at(v: &Vec<char>, i: usize) -> (r: (usize, bool))
    requires
        i <= v@.len(),
    ensures
        r.0 == parse_end_tag(v@, i as int).0,
        r.1 == parse_end_tag(v@, i as int).1,
        i <= r.0 <= v@.len(),
{
    let (c1, lt) = take_char_at(v, i, '<');
    let (c2, slash) = take_char_at(v, c1, '/');
    if !slash {
        return (c2, false);
    }
    let (c3, has_name) = take_run_at(v, c2, CharClass::NameChar);
    if !has_name {
        return (c3, false);
    }
    take_lit_at(v, eat_at(v, c3), lit_gt())
}

fn tag_with_children_at<'a>(text: &'a str, v: &Vec<char>, i: usize) -> (r: (usize, Option<XmlTag<'a>>))
    requires
        v@ == text@,
        i <= v@.len(),
    ensures
        r.0 == parse_tag_with_children(v@, i as int).0,
        i <= r.0 <= v@.len(),
        tag_opt_view(r.1) == parse_tag_with_children(v@, i as int).1,
    decreases v@.len() - i, 1int,
{
    proof {
        lemma_tag_head(v@, i as int);
    }
    let p0 = comments_at(v, i);
    let (p1, open) = take_char_at(v, eat_at(v, p0), '<');
    if !open {
        return (p1, None);
    }
    let (p2, has_name) = take_run_at(v, p1, CharClass::NameChar);
    if !has_name {
        return (p2, None);
    }
    let name = slice(text, p1, p2);
    let (p3, attributes) = attributes_at(text, v, p2);
    let (p4, gt_ok) = take_lit_at(v, eat_at(v, p3), lit_gt());
    if !gt_ok {
        return (p4, None);
    }
    let p5 = comments_at(v, p4);
    let (p6, children) = children_at(text, v, p5);
    let (c, end_ok) = end_tag_at(v, p6);
    if !end_ok {
        return (c, None);
    }
    if children.len() == 0 {
        (c, Some(XmlTag::new(name, attributes)))
    } else {
        let tag = XmlTag::with_children(name, attributes, children);
        proof {
            lemma_children_view(tag, children);
        }
        (c, Some(tag))
    }
}

fn xml_at<'a>(text: &'a str, v: &Vec<char>, i: usize) -> (r: (usize, Option<XmlTag<'a>>))
    requires
        v@ == text@,
        i <= v@.len(),
    ensures
        r.0 == parse_xml(v@, i as int).0,
        i <= r.0 <= v@.len(),
        tag_opt_view(r.1) == parse_xml(v@, i as int).1,
    decreases v@.len() - i, 2int,
{
    let j = eat_at(v, i);
    let (k, r) = tag_with_text_at(text, v, j);
    if r.is_some() {
        return (k, r);
    }
    tag_with_children_at(text, v, j)
}

fn children_at<'a>(text: &'a str, v: &Vec<char>, i: usize) -> (r: (usize, Vec<XmlTag<'a>>))
    requires
        v@ == text@,
        i <= v@.len(),
    ensures
        r.0 == parse_children(v@, i as int).0,
        i <= r.0 <= v@.len(),
        tags_view(r.1@) == parse_children(v@, i as int).1,
    decreases v@.len() - i, 3int,
{
    let mut found: Vec<XmlTag<'a>> = Vec::new();
    let mut k = i;
    loop
        invariant
            v@ == text@,
            i <= k <= v@.len(),
            parse_children(v@, k as int).0 == parse_children(v@, i as int).0,
            tags_view(found@) + parse_children(v@, k as int).1 == parse_children(v@, i as int).1,
        decreases v@.len() - k,
    {
        proof {
            lemma_xml(v@, k as int);
        }
        let (next, r) = xml_at(text, v, k);
        match r {
            Some(t) => {
                let ghost before = found@;
                let ghost tv = tag_view(t);
                found.push(t);
                proof {
                    assert(tags_view(found@) =~= tags_view(before) + seq![tv]);
                    let rest = parse_children(v@, next as int).1;
                    assert(tags_view(found@) + rest =~= tags_view(before) + (seq![tv] + rest));
                }
                k = next;
            },
            None => {
                proof {
                    assert(tags_view(found@) + Seq::<SpecTag>::empty() =~= tags_view(found@));
                }
                return (next, found);
            },
        }
    }
}

/// Reads `<!-- ... -->` after optional whitespace, producing the comment's body.
pub fn comment<'a>(input: &'a str) -> (r: ParseResult<'a, &'a str>)
    ensures
        r.state@ == input@.subrange(parse_comment(input@, 0).0, input@.len() as int),
        is_suffix(r.state@, input@),
        str_opt_view(r.result) == parse_comment(input@, 0).1,
{
    let v = chars_of(input);
    let (k, body) = comment_at(&v, 0);
    let result = match body {
        Some(end) => Some(slice(input, eat_at(&v, 0) + 4, end)),
        None => None,
    };
    ParseResult { state: slice(input, k, v.len()), result }
}

/// Reads a quoted attribute value, producing what stands between the quotes.
pub fn attribute_value<'a>(input: &'a str) -> (r: ParseResult<'a, &'a str>)
    ensures
        r.state@ == input@.subrange(parse_attribute_value(input@, 0).0, input@.len() as int),
        is_suffix(r.state@, input@),
        str_opt_view(r.result) == parse_attribute_value(input@, 0).1,
{
    let v = chars_of(input);
    let (k, result) = attribute_value_at(input, &v, 0);
    ParseResult { state: slice(input, k, v.len()), result }
}

/// Reads the longest run of name characters (alphanumerics, `-` and `_`); fails where the
/// input does not start with one.
pub fn name_parser<'a>(input: &'a str) -> (r: ParseResult<'a, &'a str>)
    ensures
        r.state@ == input@.subrange(take_name(input@, 0).0, input@.len() as int),
        is_suffix(r.state@, input@),
        str_opt_view(r.result) == take_name(input@, 0).1,
{
    let v = chars_of(input);
    let (k, found) = take_run_at(&v, 0, CharClass::NameChar);
    let result = if found {
        Some(slice(input, 0, k))
    } else {
        None
    };
    ParseResult { state: slice(input, k, v.len()), result }
}

/// Reads `<![CDATA[ ... ]]>`, producing the body with surrounding whitespace removed.
pub fn cdata<'a>(input: &'a str) -> (r: ParseResult<'a, &'a str>)
    ensures
        r.state@ == input@.subrange(parse_cdata(input@, 0).0, input@.len() as int),
        is_suffix(r.state@, input@),
        str_opt_view(r.result) == parse_cdata(input@, 0).1,
{
    let v = chars_of(input);
    let (k, result) = cdata_at(input, &v, 0);
    ParseResult { state: slice(input, k, v.len()), result }
}

/// Reads `name = "value"`.
pub fn attribute<'a>(input: &'a str) -> (r: ParseResult<'a, Attribute<'a>>)
    ensures
        r.state@ == input@.subrange(parse_attribute(input@, 0).0, input@.len() as int),
        is_suffix(r.state@, input@),
        attribute_opt_view(r.result) == parse_attribute(input@, 0).1,
        r.result matches Some(a) ==> well_formed_attribute(a@),
{
    let v = chars_of(input);
    proof {
        lemma_attribute_well_formed(v@, 0);
    }
    let (k, result) = attribute_at(input, &v, 0);
    ParseResult { state: slice(input, k, v.len()), result }
}

/// Reads a tag whose content is child tags, or nothing.
pub fn xml_tag_with_children<'a>(input: &'a str) -> (r: ParseResult<'a, XmlTag<'a>>)
    ensures
        r.state@ == input@.subrange(parse_tag_with_children(input@, 0).0, input@.len() as int),
        is_suffix(r.state@, input@),
        tag_opt_view(r.result) == parse_tag_with_children(input@, 0).1,
        r.result is Some ==> r.state@.len() < input@.len(),
        r.result matches Some(tag) ==> well_formed_tag(tag_view(tag)),
{
    let v = chars_of(input);
    proof {
        lemma_tag_with_children(v@, 0);
        lemma_tag_with_children_well_formed(v@, 0);
    }
    let (k, result) = tag_with_children_at(input, &v, 0);
    ParseResult { state: slice(input, k, v.len()), result }
}

/// Reads a self-closing tag, or a tag whose content is text.
pub fn xml_tag_with_text<'a>(input: &'a str) -> (r: ParseResult<'a, XmlTag<'a>>)
    ensures
        r.state@ == input@.subrange(parse_tag_with_text(input@, 0).0, input@.len() as int),
        is_suffix(r.state@, input@),
        tag_opt_view(r.result) == parse_tag_with_text(input@, 0).1,
        r.result is Some ==> r.state@.len() < input@.len(),
        r.result matches Some(tag) ==> well_formed_tag(tag_view(tag)),
{
    let v = chars_of(input);
    proof {
        lemma_tag_with_text(v@, 0);
        lemma_tag_with_text_well_formed(v@, 0);
    }
    let (k, result) = tag_with_text_at(input, &v, 0);
    ParseResult { state: slice(input, k, v.len()), result }
}

/// Reads one XML element after optional whitespace: a self-closing tag or a tag with text
/// where that reading succeeds, else a tag with child tags.
pub fn xml_parser<'a>(input: &'a str) -> (r: ParseResult<'a, XmlTag<'a>>)
    ensures
        r.state@ == input@.subrange(parse_xml(input@, 0).0, input@.len() as int),
        is_suffix(r.state@, input@),
        tag_opt_view(r.result) == parse_xml(input@, 0).1,
        r.result is Some ==> r.state@.len() < input@.len(),
        r.result matches Some(tag) ==> well_formed_tag(tag_view(tag)),
{
    let v = chars_of(input);
    proof {
        lemma_xml(v@, 0);
        lemma_xml_well_formed(v@, 0);
    }
    let (k, result) = xml_at(input, &v, 0);
    ParseResult { state: slice(input, k, v.len()), result }
}

/// A tag gives back what it holds: the children of a tag built with children, the text of a
/// tag built with text, and neither children nor text where it was built bare.
pub proof fn law_tag_content_read_back<'a>(t: XmlTag<'a>)
    ensures
        t.content matches Some(NodeContent::Tags(v)) ==> tag_children(t) == v@ && tag_text(t) is None,
        t.content matches Some(NodeContent::Text(x)) ==> tag_text(t) == Some(x) && tag_children(t).len()
            == 0,
        t.content is None ==> tag_children(t).len() == 0 && tag_text(t) is None,
{
}

} // verus!
