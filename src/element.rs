//! The generic markup element and its rendering.

use vstd::prelude::*;
use crate::value::{Value, value_text};

verus! {

broadcast use vstd::std_specs::vec::group_vec_axioms;

/// Something that renders itself as one unit of markup.
pub trait Node {
    /// The markup text of the node.
    spec fn markup(&self) -> Seq<char>;

    /// Renders the node.
    fn render(&self) -> (r: String)
        ensures
            r@ == self.markup(),
    ;
}

/// An element: a name, attributes in the order they were assigned, and
/// owned children in the order they were appended.
#[derive(Debug)]
pub struct Element {
    name: String,
    attributes: Vec<(String, String)>,
    children: Vec<Element>,
}

/// The text of one attribute: a space, then `name='value'`.
pub open spec fn attribute_text(name: Seq<char>, value: Seq<char>) -> Seq<char> {
    seq![' '] + name + seq!['=', '\''] + value + seq!['\'']
}

/// The texts of the attributes, in order.
pub open spec fn attributes_text(pairs: Seq<(Seq<char>, Seq<char>)>) -> Seq<char>
    decreases pairs.len(),
{
    if pairs.len() == 0 {
        Seq::empty()
    } else {
        attributes_text(pairs.drop_last()) + attribute_text(pairs.last().0, pairs.last().1)
    }
}

/// The opening of a tag: `<`, the name and the attributes.
pub open spec fn opening_text(name: Seq<char>, pairs: Seq<(Seq<char>, Seq<char>)>) -> Seq<char> {
    seq!['<'] + name + attributes_text(pairs)
}

/// The closing tag, on a line of its own.
pub open spec fn closing_text(name: Seq<char>) -> Seq<char> {
    seq!['\n', '<', '/'] + name + seq!['>']
}

/// The children, each on a line of its own.
closed spec fn children_text(cs: Seq<Element>) -> Seq<char>
    decreases cs,
{
    if cs.len() == 0 {
        Seq::empty()
    } else {
        children_text(cs.subrange(0, cs.len() - 1)) + seq!['\n'] + element_text(cs[cs.len() - 1])
    }
}

closed spec fn element_text(e: Element) -> Seq<char>
    decreases e,
{
    let open = opening_text(e.name@, e.pairs());
    if e.children@.len() == 0 {
        open + seq!['/', '>']
    } else {
        open + seq!['>'] + children_text(e.children@) + closing_text(e.name@)
    }
}

impl Element {
    /// The element's name.
    pub closed spec fn tag(&self) -> Seq<char> {
        self.name@
    }

    /// The attributes, as (name, value) pairs in the order they were assigned.
    pub closed spec fn pairs(&self) -> Seq<(Seq<char>, Seq<char>)> {
        self.attributes@.map_values(|p: (String, String)| (p.0@, p.1@))
    }

    /// The children, in the order they were appended.
    pub closed spec fn nodes(&self) -> Seq<Element> {
        self.children@
    }

    /// Creates an element with no attributes and no children.
    pub fn new(name: &str) -> (r: Element)
        ensures
            r.tag() == name@,
            r.pairs() == Seq::<(Seq<char>, Seq<char>)>::empty(),
            r.nodes() == Seq::<Element>::empty(),
            r.markup() == seq!['<'] + name@ + seq!['/', '>'],
    {
        let r = Element { name: String::from_str(name), attributes: Vec::new(), children: Vec::new() };
        assert(r.pairs() =~= Seq::<(Seq<char>, Seq<char>)>::empty());
        assert(r.markup() =~= seq!['<'] + name@ + seq!['/', '>']);
        r
    }

    /// Appends a child.
    pub fn append(&mut self, node: Element)
        ensures
            final(self).tag() == old(self).tag(),
            final(self).pairs() == old(self).pairs(),
            final(self).nodes() == old(self).nodes().push(node),
    {
        self.children.push(node);
    }

    /// Assigns an attribute; it goes after those already assigned, also where
    /// one of them has the same name.
    pub fn assign(&mut self, name: &str, value: Value)
        ensures
            final(self).tag() == old(self).tag(),
            final(self).pairs() == old(self).pairs().push((name@, value_text(value))),
            final(self).nodes() == old(self).nodes(),
    {
        let v = value.render();
        self.attributes.push((String::from_str(name), v));
        assert(final(self).pairs() =~= old(self).pairs().push((name@, value_text(value))));
    }
}

/// Renders an element and, through it, its children.
fn render_element(e: &Element) -> (r: String)
    ensures
        r@ == element_text(*e),
    decreases e,
{
    proof {
        reveal_strlit("<");
        reveal_strlit(" ");
        reveal_strlit("='");
        reveal_strlit("'");
        reveal_strlit("/>");
        reveal_strlit(">");
        reveal_strlit("\n");
        reveal_strlit("\n</");
    }
    let mut out = String::new();
    out.append("<");
    out.append(e.name.as_str());
    let mut i: usize = 0;
    while i < e.attributes.len()
        invariant
            i <= e.attributes@.len(),
            out@ == seq!['<'] + e.name@ + attributes_text(e.pairs().subrange(0, i as int)),
        decreases e.attributes@.len() - i,
    {
        proof {
            reveal_strlit(" ");
            reveal_strlit("='");
            reveal_strlit("'");
        }
        out.append(" ");
        out.append(e.attributes[i].0.as_str());
        out.append("='");
        out.append(e.attributes[i].1.as_str());
        out.append("'");
        proof {
            let s = e.pairs().subrange(0, i + 1);
            assert(s.drop_last() =~= e.pairs().subrange(0, i as int));
            assert(out@ =~= seq!['<'] + e.name@ + attributes_text(s));
        }
        i = i + 1;
    }
    assert(e.pairs().subrange(0, e.attributes@.len() as int) =~= e.pairs());
    if e.children.len() == 0 {
        out.append("/>");
        assert(out@ =~= element_text(*e));
        return out;
    }
    out.append(">");
    let ghost head = out@;
    let mut j: usize = 0;
    while j < e.children.len()
        invariant
            j <= e.children@.len(),
            out@ == head + children_text(e.children@.subrange(0, j as int)),
        decreases e.children@.len() - j,
    {
        proof {
            reveal_strlit("\n");
        }
        out.append("\n");
        let t = render_element(&e.children[j]);
        out.append(t.as_str());
        proof {
            let s = e.children@.subrange(0, j + 1);
            assert(s.subrange(0, j as int) =~= e.children@.subrange(0, j as int));
            assert(s[j as int] == e.children@[j as int]);
            assert(out@ =~= head + children_text(s));
        }
        j = j + 1;
    }
    out.append("\n</");
    out.append(e.name.as_str());
    out.append(">");
    assert(e.children@.subrange(0, e.children@.len() as int) =~= e.children@);
    assert(out@ =~= element_text(*e));
    out
}

impl Node for Element {
    closed spec fn markup(&self) -> Seq<char> {
        element_text(*self)
    }

    fn render(&self) -> (r: String) {
        render_element(self)
    }
}

/// The text holds no line break.
pub open spec fn has_no_newline(s: Seq<char>) -> bool {
    forall|i: int| 0 <= i < s.len() ==> s[i] != '\n'
}

/// The attribute names and values hold no line break.
pub open spec fn pairs_have_no_newline(pairs: Seq<(Seq<char>, Seq<char>)>) -> bool {
    forall|i: int|
        0 <= i < pairs.len() ==> has_no_newline(#[trigger] pairs[i].0) && has_no_newline(pairs[i].1)
}

proof fn lemma_concat_no_newline(a: Seq<char>, b: Seq<char>)
    requires
        has_no_newline(a),
        has_no_newline(b),
    ensures
        has_no_newline(a + b),
{
    assert forall|i: int| 0 <= i < (a + b).len() implies (a + b)[i] != '\n' by {
        if i >= a.len() {
            assert((a + b)[i] == b[i - a.len()]);
        }
    }
}

proof fn lemma_attributes_no_newline(pairs: Seq<(Seq<char>, Seq<char>)>)
    requires
        pairs_have_no_newline(pairs),
    ensures
        has_no_newline(attributes_text(pairs)),
    decreases pairs.len(),
{
    if pairs.len() > 0 {
        let last = pairs.last();
        assert(pairs_have_no_newline(pairs.drop_last())) by {
            assert forall|i: int| 0 <= i < pairs.drop_last().len() implies has_no_newline(
                #[trigger] pairs.drop_last()[i].0,
            ) && has_no_newline(pairs.drop_last()[i].1) by {
                assert(pairs.drop_last()[i] == pairs[i]);
            }
        }
        lemma_attributes_no_newline(pairs.drop_last());
        assert(has_no_newline(last.0) && has_no_newline(last.1)) by {
            assert(last == pairs[pairs.len() - 1]);
        }
        let a = seq![' '] + last.0;
        assert(has_no_newline(seq![' ']));
        assert(has_no_newline(seq!['=', '\'']));
        assert(has_no_newline(seq!['\'']));
        lemma_concat_no_newline(seq![' '], last.0);
        lemma_concat_no_newline(a, seq!['=', '\'']);
        lemma_concat_no_newline(a + seq!['=', '\''], last.1);
        lemma_concat_no_newline(a + seq!['=', '\''] + last.1, seq!['\'']);
        lemma_concat_no_newline(attributes_text(pairs.drop_last()), attribute_text(last.0, last.1));
    }
}

/// An element without children renders as its opening tag followed by
/// `/>`, whatever its name and attributes hold.
pub proof fn lemma_childless_markup(e: Element)
    requires
        e.nodes().len() == 0,
    ensures
        e.markup() == opening_text(e.tag(), e.pairs()) + seq!['/', '>'],
        e.markup().len() >= 2,
        e.markup().subrange(e.markup().len() - 2, e.markup().len() as int) == seq!['/', '>'],
{
    let m = e.markup();
    assert(m.subrange(m.len() - 2, m.len() as int) =~= seq!['/', '>']);
}

/// An element without children renders on one line wherever its name and
/// attributes hold no line break.
pub proof fn lemma_childless_self_closing(e: Element)
    requires
        e.nodes().len() == 0,
        has_no_newline(e.tag()),
        pairs_have_no_newline(e.pairs()),
    ensures
        has_no_newline(e.markup()),
{
    let open = opening_text(e.tag(), e.pairs());
    lemma_childless_markup(e);
    lemma_attributes_no_newline(e.pairs());
    assert(has_no_newline(seq!['<']));
    assert(has_no_newline(seq!['/', '>']));
    lemma_concat_no_newline(seq!['<'], e.tag());
    lemma_concat_no_newline(seq!['<'] + e.tag(), attributes_text(e.pairs()));
    lemma_concat_no_newline(open, seq!['/', '>']);
}

/// The block of one child: a line break, then the child's markup.
pub open spec fn child_block(c: Element) -> Seq<char> {
    seq!['\n'] + c.markup()
}

proof fn lemma_children_blocks(cs: Seq<Element>)
    ensures
        children_text(cs) == cs.map_values(|c: Element| child_block(c)).flatten(),
    decreases cs.len(),
{
    let f = |c: Element| child_block(c);
    if cs.len() == 0 {
        assert(cs.map_values(f) =~= Seq::<Seq<char>>::empty());
    } else {
        let s = cs.subrange(0, cs.len() - 1);
        lemma_children_blocks(s);
        assert(cs.map_values(f) =~= s.map_values(f).push(f(cs[cs.len() - 1])));
        s.map_values(f).lemma_flatten_push(f(cs[cs.len() - 1]));
    }
}

/// An element with children renders as its opening tag, then one block per
/// child in order (a line break and the child's markup), then a line break
/// and the closing tag.
pub proof fn lemma_render_with_children(e: Element)
    requires
        e.nodes().len() >= 1,
    ensures
        e.markup() == opening_text(e.tag(), e.pairs()) + seq!['>'] + e.nodes().map_values(
            |c: Element| child_block(c),
        ).flatten() + closing_text(e.tag()),
        e.nodes().map_values(|c: Element| child_block(c)).len() == e.nodes().len(),
{
    lemma_children_blocks(e.nodes());
}

/// The markup of every element: the opening tag, then `/>` where it has no
/// children, else `>`, one block per child in order and the closing tag.
pub proof fn lemma_markup(e: Element)
    ensures
        e.markup() == opening_text(e.tag(), e.pairs()) + if e.nodes().len() == 0 {
            seq!['/', '>']
        } else {
            seq!['>'] + e.nodes().map_values(|c: Element| child_block(c)).flatten()
                + closing_text(e.tag())
        },
{
    lemma_children_blocks(e.nodes());
}

/// The parts joined by line breaks.
pub open spec fn join_lines(parts: Seq<Seq<char>>) -> Seq<char>
    decreases parts.len(),
{
    if parts.len() == 0 {
        Seq::empty()
    } else if parts.len() == 1 {
        parts[0]
    } else {
        join_lines(parts.drop_last()) + seq!['\n'] + parts.last()
    }
}

/// The lines of an element with children: the opening tag with `>`, the
/// markup of each child in order, and the closing tag.
pub open spec fn element_lines(e: Element) -> Seq<Seq<char>> {
    seq![opening_text(e.tag(), e.pairs()) + seq!['>']] + e.nodes().map_values(|c: Element| c.markup())
        + seq![seq!['<', '/'] + e.tag() + seq!['>']]
}

proof fn lemma_join_children(head: Seq<char>, cs: Seq<Element>)
    ensures
        join_lines(seq![head] + cs.map_values(|c: Element| c.markup())) == head + children_text(cs),
    decreases cs.len(),
{
    let f = |c: Element| c.markup();
    if cs.len() == 0 {
        assert(seq![head] + cs.map_values(f) =~= seq![head]);
        assert(head + children_text(cs) =~= head);
    } else {
        let s = cs.subrange(0, cs.len() - 1);
        lemma_join_children(head, s);
        let whole = seq![head] + cs.map_values(f);
        assert(whole.drop_last() =~= seq![head] + s.map_values(f));
        assert(whole.last() == cs[cs.len() - 1].markup());
        assert(head + children_text(cs) =~= head + children_text(s) + seq!['\n'] + element_text(
            cs[cs.len() - 1],
        ));
    }
}

/// An element with children, whose name, attributes and children's markup
/// hold no line break, renders as exactly `len(children) + 2` lines: the
/// opening tag, one line per child's markup in order, and the closing tag.
pub proof fn lemma_render_lines(e: Element)
    requires
        e.nodes().len() >= 1,
        has_no_newline(e.tag()),
        pairs_have_no_newline(e.pairs()),
        forall|i: int| 0 <= i < e.nodes().len() ==> has_no_newline(#[trigger] e.nodes()[i].markup()),
    ensures
        e.markup() == join_lines(element_lines(e)),
        element_lines(e).len() == e.nodes().len() + 2,
        element_lines(e)[0] == opening_text(e.tag(), e.pairs()) + seq!['>'],
        forall|i: int| 0 <= i < e.nodes().len() ==> element_lines(e)[i + 1] == (#[trigger] e.nodes()[i]).markup(),
        element_lines(e).last() == seq!['<', '/'] + e.tag() + seq!['>'],
        forall|i: int| 0 <= i < element_lines(e).len() ==> has_no_newline(#[trigger] element_lines(e)[i]),
{
    let f = |c: Element| c.markup();
    let open = opening_text(e.tag(), e.pairs()) + seq!['>'];
    let close = seq!['<', '/'] + e.tag() + seq!['>'];
    let lines = element_lines(e);
    let body = seq![open] + e.nodes().map_values(f);
    lemma_join_children(open, e.nodes());
    assert(lines.drop_last() =~= body);
    assert(lines.last() == close);
    assert(e.markup() =~= join_lines(lines));
    lemma_attributes_no_newline(e.pairs());
    assert(has_no_newline(seq!['<']));
    assert(has_no_newline(seq!['>']));
    assert(has_no_newline(seq!['<', '/']));
    lemma_concat_no_newline(seq!['<'], e.tag());
    lemma_concat_no_newline(seq!['<'] + e.tag(), attributes_text(e.pairs()));
    lemma_concat_no_newline(opening_text(e.tag(), e.pairs()), seq!['>']);
    lemma_concat_no_newline(seq!['<', '/'], e.tag());
    lemma_concat_no_newline(seq!['<', '/'] + e.tag(), seq!['>']);
    assert forall|i: int| 0 <= i < lines.len() implies has_no_newline(#[trigger] lines[i]) by {
        if 1 <= i < lines.len() - 1 {
            assert(lines[i] == e.nodes()[i - 1].markup());
        }
    }
    assert forall|i: int| 0 <= i < e.nodes().len() implies lines[i + 1] == (
    #[trigger] e.nodes()[i]).markup() by {
        assert(lines[i + 1] == body[i + 1]);
    }
}

/// Attributes are rendered in the order they were assigned; two with the
/// same name are both rendered.
pub proof fn lemma_attribute_order(
    pairs: Seq<(Seq<char>, Seq<char>)>,
    n1: Seq<char>,
    v1: Seq<char>,
    n2: Seq<char>,
    v2: Seq<char>,
)
    ensures
        attributes_text(pairs.push((n1, v1)).push((n2, v2))) == attributes_text(pairs)
            + attribute_text(n1, v1) + attribute_text(n2, v2),
{
    let once = pairs.push((n1, v1));
    let twice = once.push((n2, v2));
    assert(twice.drop_last() =~= once);
    assert(twice.last() == (n2, v2));
    assert(once.drop_last() =~= pairs);
    assert(once.last() == (n1, v1));
    assert(attributes_text(once) == attributes_text(pairs) + attribute_text(n1, v1));
    assert(attributes_text(twice) == attributes_text(once) + attribute_text(n2, v2));
}

} // verus!
