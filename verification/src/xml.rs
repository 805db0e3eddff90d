//! Markup: a tree of elements and text, and the characters that write it.
//!
//! An element without children is written as an empty-element tag
//! (`<name attrs />`); any other element as a start tag, its children and an
//! end tag. Attribute values and text are escaped, so that the writing of a
//! tree is one well-formed element whenever the tree is an element.

use vstd::prelude::*;

verus! {

/// A node of a markup tree.
pub enum XmlNode {
    Element { name: Seq<char>, attrs: Seq<(Seq<char>, Seq<char>)>, children: Seq<XmlNode> },
    Text(Seq<char>),
}

/// An element with the given name, attributes and children.
pub open spec fn elem(
    name: Seq<char>,
    attrs: Seq<(Seq<char>, Seq<char>)>,
    children: Seq<XmlNode>,
) -> XmlNode {
    XmlNode::Element { name, attrs, children }
}

/// An element with no children.
pub open spec fn leaf(name: Seq<char>, attrs: Seq<(Seq<char>, Seq<char>)>) -> XmlNode {
    elem(name, attrs, seq![])
}

/// An element with no attributes whose only child is the given text.
pub open spec fn text_elem(name: Seq<char>, text: Seq<char>) -> XmlNode {
    elem(name, seq![], seq![XmlNode::Text(text)])
}

/// What stands for the character `c` in text (`quote == false`) or in a
/// quoted attribute value (`quote == true`).
pub open spec fn escaped_char(c: char, quote: bool) -> Seq<char> {
    if c == '&' {
        "&amp;"@
    } else if c == '<' {
        "&lt;"@
    } else if c == '>' {
        "&gt;"@
    } else if quote && c == '"' {
        "&quot;"@
    } else if quote && c == '\'' {
        "&apos;"@
    } else if quote && c == '\n' {
        "&#xA;"@
    } else if quote && c == '\r' {
        "&#xD;"@
    } else {
        seq![c]
    }
}

/// The escaped form of `s`, character by character.
pub open spec fn escape(s: Seq<char>, quote: bool) -> Seq<char>
    decreases s.len(),
{
    if s.len() == 0 {
        seq![]
    } else {
        escape(s.drop_last(), quote) + escaped_char(s.last(), quote)
    }
}

/// The attribute list of a tag: ` name="value"` for each attribute, in order.
pub open spec fn render_attrs(attrs: Seq<(Seq<char>, Seq<char>)>) -> Seq<char>
    decreases attrs.len(),
{
    if attrs.len() == 0 {
        seq![]
    } else {
        render_attrs(attrs.drop_last()) + " "@ + attrs.last().0 + "=\""@ + escape(
            attrs.last().1,
            true,
        ) + "\""@
    }
}

pub open spec fn start_tag(name: Seq<char>, attrs: Seq<(Seq<char>, Seq<char>)>) -> Seq<char> {
    "<"@ + name + render_attrs(attrs) + ">"@
}

pub open spec fn empty_tag(name: Seq<char>, attrs: Seq<(Seq<char>, Seq<char>)>) -> Seq<char> {
    "<"@ + name + render_attrs(attrs) + " />"@
}

pub open spec fn end_tag(name: Seq<char>) -> Seq<char> {
    "</"@ + name + ">"@
}

/// The characters that write a node.
pub open spec fn render_node(n: XmlNode) -> Seq<char>
    decreases n,
{
    match n {
        XmlNode::Element { name, attrs, children } => {
            if children.len() == 0 {
                empty_tag(name, attrs)
            } else {
                start_tag(name, attrs) + render_nodes(children) + end_tag(name)
            }
        },
        XmlNode::Text(t) => escape(t, false),
    }
}

/// The characters that write a sequence of nodes, one after the other.
pub open spec fn render_nodes(ns: Seq<XmlNode>) -> Seq<char>
    decreases ns,
{
    if ns.len() == 0 {
        seq![]
    } else {
        render_nodes(ns.drop_last()) + render_node(ns.last())
    }
}

/// An attribute of a tag: its name and its (unescaped) value.
#[derive(Debug, PartialEq, Eq)]
pub struct Attr {
    pub name: String,
    pub value: String,
}

impl View for Attr {
    type V = (Seq<char>, Seq<char>);

    open spec fn view(&self) -> (Seq<char>, Seq<char>) {
        (self.name@, self.value@)
    }
}

/// The attribute list that a vector of attributes stands for.
pub open spec fn attrs_view(attrs: Seq<Attr>) -> Seq<(Seq<char>, Seq<char>)> {
    attrs.map_values(|a: Attr| a@)
}

impl Attr {
    /// The attribute `name="value"`.
    pub fn new(name: &str, value: String) -> (a: Attr)
        ensures
            a@ == (name@, value@),
    {
        Attr { name: String::from_str(name), value }
    }
}

impl Clone for Attr {
    /// A copy of this attribute.
    fn clone(&self) -> (a: Attr)
        ensures
            a@ == self@,
    {
        Attr { name: self.name.clone(), value: self.value.clone() }
    }
}

/// Writing the sequence `ns` followed by `n` writes `ns`, then `n`.
pub proof fn lemma_render_nodes_push(ns: Seq<XmlNode>, n: XmlNode)
    ensures
        render_nodes(ns.push(n)) == render_nodes(ns) + render_node(n),
{
    assert(ns.push(n).drop_last() =~= ns);
}

/// Writing a one-node sequence writes that node.
pub proof fn lemma_render_nodes_single(n: XmlNode)
    ensures
        render_nodes(seq![n]) == render_node(n),
{
    let empty: Seq<XmlNode> = seq![];
    lemma_render_nodes_push(empty, n);
    assert(empty.push(n) =~= seq![n]);
    assert(render_nodes(empty) =~= seq![]);
}

/// Writing a two-node sequence writes the nodes in order.
pub proof fn lemma_render_nodes_two(a: XmlNode, b: XmlNode)
    ensures
        render_nodes(seq![a, b]) == render_node(a) + render_node(b),
{
    lemma_render_nodes_single(a);
    lemma_render_nodes_push(seq![a], b);
    assert(seq![a].push(b) =~= seq![a, b]);
}

/// Writing a three-node sequence writes the nodes in order.
pub proof fn lemma_render_nodes_three(a: XmlNode, b: XmlNode, c: XmlNode)
    ensures
        render_nodes(seq![a, b, c]) == render_node(a) + render_node(b) + render_node(c),
{
    lemma_render_nodes_two(a, b);
    lemma_render_nodes_push(seq![a, b], c);
    assert(seq![a, b].push(c) =~= seq![a, b, c]);
}

/// A character that escaping leaves as it is, in text and in attribute
/// values alike.
pub open spec fn is_plain_char(c: char) -> bool {
    c != '&' && c != '<' && c != '>' && c != '"' && c != '\'' && c != '\n' && c != '\r'
}

/// Escaping leaves a string of plain characters as it is.
pub proof fn lemma_escape_plain(s: Seq<char>, quote: bool)
    requires
        forall|i: int| 0 <= i < s.len() ==> is_plain_char(#[trigger] s[i]),
    ensures
        escape(s, quote) == s,
    decreases s.len(),
{
    if s.len() > 0 {
        lemma_escape_plain(s.drop_last(), quote);
        assert(is_plain_char(s[s.len() - 1]));
        assert(s.drop_last().push(s.last()) =~= s);
    }
}

/// The text that escaped characters stand for: each entity (`&amp;`,
/// `&lt;`, `&gt;`, `&quot;`, `&apos;`, `&#xA;`, `&#xD;`) read back as its
/// character, every other character as itself.
pub open spec fn unescape(s: Seq<char>) -> Seq<char>
    decreases s.len(),
{
    if s.len() == 0 {
        seq![]
    } else if s.len() >= 5 && s.subrange(0, 5) == "&amp;"@ {
        seq!['&'] + unescape(s.subrange(5, s.len() as int))
    } else if s.len() >= 4 && s.subrange(0, 4) == "&lt;"@ {
        seq!['<'] + unescape(s.subrange(4, s.len() as int))
    } else if s.len() >= 4 && s.subrange(0, 4) == "&gt;"@ {
        seq!['>'] + unescape(s.subrange(4, s.len() as int))
    } else if s.len() >= 6 && s.subrange(0, 6) == "&quot;"@ {
        seq!['"'] + unescape(s.subrange(6, s.len() as int))
    } else if s.len() >= 6 && s.subrange(0, 6) == "&apos;"@ {
        seq!['\''] + unescape(s.subrange(6, s.len() as int))
    } else if s.len() >= 5 && s.subrange(0, 5) == "&#xA;"@ {
        seq!['\n'] + unescape(s.subrange(5, s.len() as int))
    } else if s.len() >= 5 && s.subrange(0, 5) == "&#xD;"@ {
        seq!['\r'] + unescape(s.subrange(5, s.len() as int))
    } else {
        seq![s[0]] + unescape(s.subrange(1, s.len() as int))
    }
}

#[verifier::spinoff_prover]
proof fn lemma_unescape_char(c: char, quote: bool, r: Seq<char>)
    ensures
        unescape(escaped_char(c, quote) + r) == seq![c] + unescape(r),
{
    reveal_strlit("&amp;");
    reveal_strlit("&lt;");
    reveal_strlit("&gt;");
    reveal_strlit("&quot;");
    reveal_strlit("&apos;");
    reveal_strlit("&#xA;");
    reveal_strlit("&#xD;");
    let e = escaped_char(c, quote);
    let t = e + r;
    let n = e.len() as int;
    assert(t.subrange(n, t.len() as int) =~= r);
    assert(t.subrange(0, n) =~= e);
    if e.len() == 1 {
        assert(e == seq![c]);
        assert(c != '&');
        assert(t[0] == c);
        assert(t.subrange(1, t.len() as int) =~= r);
        if t.len() >= 4 {
            assert(t.subrange(0, 4)[0] != '&');
        }
        if t.len() >= 5 {
            assert(t.subrange(0, 5)[0] != '&');
        }
        if t.len() >= 6 {
            assert(t.subrange(0, 6)[0] != '&');
        }
    } else {
        if t.len() >= 5 {
            assert(t.subrange(0, 5)[1] == t[1]);
            assert(t.subrange(0, 5)[2] == t[2]);
            assert(t.subrange(0, 5)[3] == t[3]);
        }
        if t.len() >= 4 {
            assert(t.subrange(0, 4)[1] == t[1]);
        }
        if t.len() >= 6 {
            assert(t.subrange(0, 6)[1] == t[1]);
            assert(t.subrange(0, 6)[2] == t[2]);
        }
        assert(t[1] == e[1]);
        assert(e.len() >= 4 ==> t[2] == e[2] && t[3] == e[3]);
    }
}

proof fn lemma_escape_front(s: Seq<char>, quote: bool)
    requires
        s.len() > 0,
    ensures
        escape(s, quote) == escaped_char(s[0], quote) + escape(s.drop_first(), quote),
    decreases s.len(),
{
    if s.len() == 1 {
        assert(s.drop_last() =~= Seq::<char>::empty());
        assert(s.drop_first() =~= Seq::<char>::empty());
        assert(escape(s.drop_first(), quote) =~= seq![]);
        assert(escape(s, quote) =~= escaped_char(s[0], quote) + escape(s.drop_first(), quote));
    } else {
        lemma_escape_front(s.drop_last(), quote);
        assert(s.drop_last().drop_first() =~= s.drop_first().drop_last());
        assert(s.drop_first().last() == s.last());
        assert(s.drop_last()[0] == s[0]);
        assert(escape(s, quote) =~= escaped_char(s[0], quote) + escape(s.drop_first(), quote));
    }
}

/// Escaping loses nothing: the escaped form of any text reads back as that
/// text.
pub proof fn lemma_escape_reads_back(s: Seq<char>, quote: bool)
    ensures
        unescape(escape(s, quote)) == s,
    decreases s.len(),
{
    if s.len() == 0 {
        assert(escape(s, quote) =~= seq![]);
    } else {
        lemma_escape_front(s, quote);
        lemma_escape_reads_back(s.drop_first(), quote);
        lemma_unescape_char(s[0], quote, escape(s.drop_first(), quote));
        assert(seq![s[0]] + s.drop_first() =~= s);
    }
}

/// Two different texts are never escaped alike.
pub proof fn lemma_escape_injective(s: Seq<char>, t: Seq<char>, quote: bool)
    requires
        escape(s, quote) == escape(t, quote),
    ensures
        s == t,
{
    lemma_escape_reads_back(s, quote);
    lemma_escape_reads_back(t, quote);
}

/// Escaped text holds no `<` and no `>`, and an escaped attribute value no
/// `"` either: text and values cannot close or open a tag, and a value
/// cannot end its quotes early.
pub proof fn lemma_escape_safe(s: Seq<char>, quote: bool)
    ensures
        forall|i: int|
            0 <= i < escape(s, quote).len() ==> {
                &&& #[trigger] escape(s, quote)[i] != '<'
                &&& escape(s, quote)[i] != '>'
                &&& (quote ==> escape(s, quote)[i] != '"')
            },
    decreases s.len(),
{
    if s.len() > 0 {
        lemma_escape_safe(s.drop_last(), quote);
        reveal_strlit("&amp;");
        reveal_strlit("&lt;");
        reveal_strlit("&gt;");
        reveal_strlit("&quot;");
        reveal_strlit("&apos;");
        reveal_strlit("&#xA;");
        reveal_strlit("&#xD;");
        let head = escape(s.drop_last(), quote);
        let tail = escaped_char(s.last(), quote);
        assert forall|i: int| 0 <= i < tail.len() implies {
            &&& tail[i] != '<'
            &&& tail[i] != '>'
            &&& (quote ==> tail[i] != '"')
        } by {}
        assert forall|i: int| 0 <= i < escape(s, quote).len() implies {
            &&& #[trigger] escape(s, quote)[i] != '<'
            &&& escape(s, quote)[i] != '>'
            &&& (quote ==> escape(s, quote)[i] != '"')
        } by {
            if i < head.len() {
                assert(escape(s, quote)[i] == head[i]);
            } else {
                assert(escape(s, quote)[i] == tail[i - head.len()]);
            }
        }
    }
}

/// `s` holds no `<`.
pub open spec fn lt_free(s: Seq<char>) -> bool {
    forall|i: int| 0 <= i < s.len() ==> s[i] != '<'
}

/// Attribute lists write one after the other.
pub proof fn lemma_render_attrs_concat(
    a: Seq<(Seq<char>, Seq<char>)>,
    b: Seq<(Seq<char>, Seq<char>)>,
)
    ensures
        render_attrs(a + b) == render_attrs(a) + render_attrs(b),
    decreases b.len(),
{
    if b.len() == 0 {
        assert(a + b =~= a);
        assert(render_attrs(a) + render_attrs(b) =~= render_attrs(a));
    } else {
        lemma_render_attrs_concat(a, b.drop_last());
        assert((a + b).drop_last() =~= a + b.drop_last());
        assert((a + b).last() == b.last());
        assert(render_attrs(a + b) =~= render_attrs(a) + render_attrs(b));
    }
}

/// `t` occurs in `s`: some run of consecutive characters of `s` is `t`.
pub open spec fn occurs(t: Seq<char>, s: Seq<char>) -> bool {
    exists|i: int| 0 <= i && i + t.len() <= s.len() && #[trigger] s.subrange(i, i + t.len()) == t
}

/// A string occurs in any string that holds it between two others.
pub proof fn lemma_occurs_between(x: Seq<char>, t: Seq<char>, y: Seq<char>)
    ensures
        occurs(t, x + t + y),
{
    let s = x + t + y;
    assert(s.subrange(x.len() as int, (x.len() + t.len()) as int) =~= t);
}

/// What occurs in a string that occurs in `s` occurs in `s`.
pub proof fn lemma_occurs_trans(u: Seq<char>, t: Seq<char>, s: Seq<char>)
    requires
        occurs(u, t),
        occurs(t, s),
    ensures
        occurs(u, s),
{
    let j = choose|j: int| 0 <= j && j + u.len() <= t.len() && #[trigger] t.subrange(j, j + u.len()) == u;
    let i = choose|i: int| 0 <= i && i + t.len() <= s.len() && #[trigger] s.subrange(i, i + t.len()) == t;
    assert(s.subrange(i + j, i + j + u.len()) =~= u) by {
        assert forall|k: int| 0 <= k < u.len() implies s.subrange(i + j, i + j + u.len())[k] == u[k] by {
            assert(s.subrange(i, i + t.len())[j + k] == t[j + k]);
            assert(t.subrange(j, j + u.len())[k] == u[k]);
        }
    }
}

/// Adding an attribute at the end of a list writes it after the others.
pub proof fn lemma_render_attrs_push(attrs: Seq<(Seq<char>, Seq<char>)>, a: (Seq<char>, Seq<char>))
    ensures
        render_attrs(attrs.push(a)) == render_attrs(attrs) + " "@ + a.0 + "=\""@ + escape(a.1, true)
            + "\""@,
{
    assert(attrs.push(a).drop_last() =~= attrs);
}

/// Escaped text and attribute values hold no `<`.
pub proof fn lemma_escape_lt_free(s: Seq<char>, quote: bool)
    ensures
        lt_free(escape(s, quote)),
{
    lemma_escape_safe(s, quote);
    assert forall|i: int| 0 <= i < escape(s, quote).len() implies escape(s, quote)[i] != '<' by {
        assert(escape(s, quote)[i] != '<');
    }
}

/// The attribute list of a tag holds no `<` when no attribute name does.
pub proof fn lemma_render_attrs_lt_free(attrs: Seq<(Seq<char>, Seq<char>)>)
    requires
        forall|i: int| 0 <= i < attrs.len() ==> lt_free(#[trigger] attrs[i].0),
    ensures
        lt_free(render_attrs(attrs)),
    decreases attrs.len(),
{
    if attrs.len() > 0 {
        let rest = attrs.drop_last();
        assert forall|i: int| 0 <= i < rest.len() implies lt_free(#[trigger] rest[i].0) by {
            assert(rest[i] == attrs[i]);
        }
        lemma_render_attrs_lt_free(rest);
        lemma_escape_lt_free(attrs.last().1, true);
        reveal_strlit(" ");
        reveal_strlit("=\"");
        reveal_strlit("\"");
        assert(lt_free(attrs[attrs.len() - 1].0));
        let r = render_attrs(attrs);
        let parts = render_attrs(rest) + " "@ + attrs.last().0 + "=\""@ + escape(
            attrs.last().1,
            true,
        ) + "\""@;
        assert(r == parts);
        assert forall|i: int| 0 <= i < r.len() implies r[i] != '<' by {
            let a = render_attrs(rest);
            let n = attrs.last().0;
            let e = escape(attrs.last().1, true);
            if i < a.len() {
                assert(r[i] == a[i]);
            } else if i < a.len() + 1 {
            } else if i < a.len() + 1 + n.len() {
                assert(r[i] == n[i - a.len() - 1]);
            } else if i < a.len() + 1 + n.len() + 2 {
            } else if i < a.len() + 1 + n.len() + 2 + e.len() {
                assert(r[i] == e[i - (a.len() + 1 + n.len() + 2)]);
            } else {
            }
        }
    }
}

/// Appends the escaped form of `s`.
pub fn write_escaped(out: &mut String, s: &str, quote: bool)
    ensures
        final(out)@ == old(out)@ + escape(s@, quote),
{
    let ghost base = out@;
    let n = s.unicode_len();
    let mut i: usize = 0;
    assert(s@.take(0) =~= seq![]);
    assert(out@ =~= base + escape(s@.take(0), quote));
    while i < n
        invariant
            n == s@.len(),
            i <= n,
            out@ == base + escape(s@.take(i as int), quote),
        decreases n - i,
    {
        let c = s.get_char(i);
        let ghost before = out@;
        if c == '&' {
            out.append("&amp;");
        } else if c == '<' {
            out.append("&lt;");
        } else if c == '>' {
            out.append("&gt;");
        } else if quote && c == '"' {
            out.append("&quot;");
        } else if quote && c == '\'' {
            out.append("&apos;");
        } else if quote && c == '\n' {
            out.append("&#xA;");
        } else if quote && c == '\r' {
            out.append("&#xD;");
        } else {
            let one = s.substring_char(i, i + 1);
            assert(one@ =~= seq![c]);
            out.append(one);
        }
        assert(out@ == before + escaped_char(c, quote));
        assert(s@.take(i + 1).drop_last() =~= s@.take(i as int));
        assert(s@.take(i + 1).last() == c);
        assert(out@ =~= base + escape(s@.take(i + 1), quote));
        i = i + 1;
    }
    assert(s@.take(n as int) =~= s@);
}

/// Appends the attribute list of a tag.
pub fn write_attrs(out: &mut String, attrs: &Vec<Attr>)
    ensures
        final(out)@ == old(out)@ + render_attrs(attrs_view(attrs@)),
{
    let ghost base = out@;
    let ghost v = attrs_view(attrs@);
    let mut i: usize = 0;
    assert(v.take(0) =~= seq![]);
    assert(out@ =~= base + render_attrs(v.take(0)));
    while i < attrs.len()
        invariant
            v == attrs_view(attrs@),
            v.len() == attrs@.len(),
            i <= attrs.len(),
            out@ == base + render_attrs(v.take(i as int)),
        decreases attrs.len() - i,
    {
        let ghost before = out@;
        out.append(" ");
        out.append(attrs[i].name.as_str());
        out.append("=\"");
        write_escaped(out, attrs[i].value.as_str(), true);
        out.append("\"");
        assert(v.take(i + 1).drop_last() =~= v.take(i as int));
        assert(v.take(i + 1).last() == attrs@[i as int]@);
        assert(out@ =~= base + render_attrs(v.take(i + 1)));
        i = i + 1;
    }
    assert(v.take(attrs.len() as int) =~= v);
}

/// Appends the start tag `<name attrs>`.
pub fn write_start(out: &mut String, name: &str, attrs: &Vec<Attr>)
    ensures
        final(out)@ == old(out)@ + start_tag(name@, attrs_view(attrs@)),
{
    out.append("<");
    out.append(name);
    write_attrs(out, attrs);
    out.append(">");
    assert(final(out)@ =~= old(out)@ + start_tag(name@, attrs_view(attrs@)));
}

/// Appends the end tag `</name>`.
pub fn write_end(out: &mut String, name: &str)
    ensures
        final(out)@ == old(out)@ + end_tag(name@),
{
    out.append("</");
    out.append(name);
    out.append(">");
    assert(final(out)@ =~= old(out)@ + end_tag(name@));
}

/// Appends an element without children: `<name attrs />`.
pub fn write_leaf(out: &mut String, name: &str, attrs: &Vec<Attr>)
    ensures
        final(out)@ == old(out)@ + render_node(leaf(name@, attrs_view(attrs@))),
{
    out.append("<");
    out.append(name);
    write_attrs(out, attrs);
    out.append(" />");
    assert(final(out)@ =~= old(out)@ + render_node(leaf(name@, attrs_view(attrs@))));
}

/// Appends an element without attributes whose only child is `text`.
pub fn write_text_element(out: &mut String, name: &str, text: &str)
    ensures
        final(out)@ == old(out)@ + render_node(text_elem(name@, text@)),
{
    let no_attrs: Vec<Attr> = Vec::new();
    write_start(out, name, &no_attrs);
    write_escaped(out, text, false);
    write_end(out, name);
    proof {
        lemma_render_nodes_single(XmlNode::Text(text@));
        assert(attrs_view(no_attrs@) =~= seq![]);
    }
    assert(final(out)@ =~= old(out)@ + render_node(text_elem(name@, text@)));
}

/// A node of a tree that a program builds: an element or a run of text.
#[derive(Debug, PartialEq, Eq)]
pub enum Node {
    Element(Element),
    Text(String),
}

/// An element that a program builds: its name, its attributes in order and
/// its children in order.
#[derive(Debug, PartialEq, Eq)]
pub struct Element {
    pub name: String,
    pub attrs: Vec<Attr>,
    pub children: Vec<Node>,
}

/// The markup tree that a built node stands for.
pub open spec fn node_tree(n: Node) -> XmlNode
    decreases n,
{
    match n {
        Node::Element(e) => element_tree(e),
        Node::Text(t) => XmlNode::Text(t@),
    }
}

/// The markup tree that a built element stands for.
pub open spec fn element_tree(e: Element) -> XmlNode
    decreases e,
{
    XmlNode::Element {
        name: e.name@,
        attrs: attrs_view(e.attrs@),
        children: node_trees(e.children@),
    }
}

/// The markup trees that built nodes stand for, in order.
pub open spec fn node_trees(ns: Seq<Node>) -> Seq<XmlNode>
    decreases ns,
{
    if ns.len() == 0 {
        seq![]
    } else {
        node_trees(ns.drop_last()).push(node_tree(ns.last()))
    }
}

/// The trees of a sequence of built nodes stand one for each node, in order.
pub proof fn lemma_node_trees(ns: Seq<Node>)
    ensures
        node_trees(ns).len() == ns.len(),
        forall|i: int| 0 <= i < ns.len() ==> #[trigger] node_trees(ns)[i] == node_tree(ns[i]),
    decreases ns.len(),
{
    if ns.len() > 0 {
        lemma_node_trees(ns.drop_last());
        assert forall|i: int| 0 <= i < ns.len() implies #[trigger] node_trees(ns)[i] == node_tree(
            ns[i],
        ) by {
            if i < ns.len() - 1 {
                assert(ns.drop_last()[i] == ns[i]);
            }
        }
    }
}

/// The writing of built nodes, each in turn.
pub open spec fn nodes_written(ns: Seq<Node>) -> Seq<char>
    decreases ns.len(),
{
    if ns.len() == 0 {
        seq![]
    } else {
        nodes_written(ns.drop_last()) + render_node(node_tree(ns.last()))
    }
}

proof fn lemma_node_trees_written(ns: Seq<Node>)
    ensures
        render_nodes(node_trees(ns)) == nodes_written(ns),
    decreases ns.len(),
{
    if ns.len() > 0 {
        lemma_node_trees_written(ns.drop_last());
        lemma_render_nodes_push(node_trees(ns.drop_last()), node_tree(ns.last()));
    }
}

/// A built element is written whole: its start tag with its attributes,
/// every one of its children in order, and its end tag; or, when it has no
/// children, an empty-element tag.
#[verifier::spinoff_prover]
pub proof fn lemma_element_written(e: Element)
    ensures
        e.children@.len() == 0 ==> render_node(element_tree(e)) == "<"@ + e.name@ + render_attrs(
            attrs_view(e.attrs@),
        ) + " />"@,
        e.children@.len() > 0 ==> render_node(element_tree(e)) == "<"@ + e.name@ + render_attrs(
            attrs_view(e.attrs@),
        ) + ">"@ + nodes_written(e.children@) + "</"@ + e.name@ + ">"@,
{
    lemma_node_trees(e.children@);
    lemma_node_trees_written(e.children@);
}

/// Appends the writing of a built node.
pub fn write_node(out: &mut String, n: &Node)
    ensures
        final(out)@ == old(out)@ + render_node(node_tree(*n)),
    decreases n,
{
    match n {
        Node::Element(e) => write_element(out, e),
        Node::Text(t) => write_escaped(out, t.as_str(), false),
    }
}

/// Appends the writing of a built element.
pub fn write_element(out: &mut String, e: &Element)
    ensures
        final(out)@ == old(out)@ + render_node(element_tree(*e)),
    decreases e,
{
    proof {
        lemma_node_trees(e.children@);
    }
    if e.children.len() == 0 {
        write_leaf(out, e.name.as_str(), &e.attrs);
        assert(node_trees(e.children@) =~= seq![]);
    } else {
        write_start(out, e.name.as_str(), &e.attrs);
        let ghost b = out@;
        let ghost ts = node_trees(e.children@);
        let mut i: usize = 0;
        assert(ts.take(0) =~= seq![]);
        assert(out@ =~= b + render_nodes(ts.take(0)));
        while i < e.children.len()
            invariant
                ts == node_trees(e.children@),
                ts.len() == e.children@.len(),
                forall|k: int| 0 <= k < ts.len() ==> #[trigger] ts[k] == node_tree(e.children@[k]),
                i <= e.children.len(),
                out@ == b + render_nodes(ts.take(i as int)),
            decreases e.children.len() - i,
        {
            assert(decreases_to!(e => e.children));
            assert(decreases_to!(e.children => e.children[i as int]));
            write_node(out, &e.children[i]);
            proof {
                lemma_render_nodes_push(ts.take(i as int), ts[i as int]);
                assert(ts.take(i as int).push(ts[i as int]) =~= ts.take(i + 1));
            }
            i = i + 1;
        }
        assert(ts.take(e.children.len() as int) =~= ts);
        write_end(out, e.name.as_str());
    }
}

/// A copy of a built node, standing for the same tree.
pub fn copy_node(n: &Node) -> (c: Node)
    ensures
        node_tree(c) == node_tree(*n),
    decreases n,
{
    match n {
        Node::Element(e) => Node::Element(copy_element(e)),
        Node::Text(t) => Node::Text(t.clone()),
    }
}

/// A copy of a built element, standing for the same tree.
pub fn copy_element(e: &Element) -> (c: Element)
    ensures
        element_tree(c) == element_tree(*e),
    decreases e,
{
    let mut attrs: Vec<Attr> = Vec::new();
    let mut i: usize = 0;
    while i < e.attrs.len()
        invariant
            i <= e.attrs.len(),
            attrs@.len() == i,
            forall|k: int| 0 <= k < i ==> #[trigger] attrs@[k]@ == e.attrs@[k]@,
        decreases e.attrs.len() - i,
    {
        attrs.push(e.attrs[i].clone());
        i = i + 1;
    }
    assert(attrs_view(attrs@) =~= attrs_view(e.attrs@));
    let mut children: Vec<Node> = Vec::new();
    let mut j: usize = 0;
    while j < e.children.len()
        invariant
            j <= e.children.len(),
            children@.len() == j,
            forall|k: int| 0 <= k < j ==> #[trigger] node_tree(children@[k]) == node_tree(
                e.children@[k],
            ),
        decreases e.children.len() - j,
    {
        assert(decreases_to!(e => e.children));
        assert(decreases_to!(e.children => e.children[j as int]));
        children.push(copy_node(&e.children[j]));
        j = j + 1;
    }
    proof {
        lemma_node_trees(children@);
        lemma_node_trees(e.children@);
        assert(node_trees(children@) =~= node_trees(e.children@));
    }
    Element { name: e.name.clone(), attrs, children }
}

impl Clone for Node {
    /// A copy of this node, standing for the same tree.
    fn clone(&self) -> (c: Node)
        ensures
            node_tree(c) == node_tree(*self),
    {
        copy_node(self)
    }
}

impl Clone for Element {
    /// A copy of this element, standing for the same tree.
    fn clone(&self) -> (c: Element)
        ensures
            element_tree(c) == element_tree(*self),
    {
        copy_element(self)
    }
}

} // verus!
